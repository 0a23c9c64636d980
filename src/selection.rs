use vstd::prelude::*;
use vstd::std_specs::iter::IteratorSpec;
use crate::command::views;

verus! {

broadcast use vstd::string::group_string_axioms;

/// The Unicode `White_Space` characters, which `str::trim` removes.
pub open spec fn white_space(c: char) -> bool {
    let u = c as u32;
    (0x9 <= u <= 0xD) || u == 0x20 || u == 0x85 || u == 0xA0 || u == 0x1680 || (0x2000 <= u
        <= 0x200A) || u == 0x2028 || u == 0x2029 || u == 0x202F || u == 0x205F || u == 0x3000
}

pub open spec fn trim_start(s: Seq<char>) -> Seq<char>
    decreases s.len(),
{
    if s.len() > 0 && white_space(s[0]) {
        trim_start(s.drop_first())
    } else {
        s
    }
}

pub open spec fn trim_end(s: Seq<char>) -> Seq<char>
    decreases s.len(),
{
    if s.len() > 0 && white_space(s.last()) {
        trim_end(s.drop_last())
    } else {
        s
    }
}

/// `s` without surrounding white space.
pub open spec fn trim(s: Seq<char>) -> Seq<char> {
    trim_end(trim_start(s))
}

/// The position of the first line feed at or after `i`, or the length.
pub open spec fn line_end(s: Seq<char>, i: int) -> int
    decreases s.len() - i,
{
    if i >= s.len() {
        s.len() as int
    } else if s[i] == '\n' {
        i
    } else {
        line_end(s, i + 1)
    }
}

/// `s` cut at each line feed; a text without one is a single line.
pub open spec fn split_lines(s: Seq<char>) -> Seq<Seq<char>>
    decreases s.len(),
{
    if s.len() == 0 {
        seq![seq![]]
    } else {
        let r = split_lines(s.drop_last());
        if s.last() == '\n' {
            r.push(seq![])
        } else {
            r.update(r.len() - 1, r.last().push(s.last()))
        }
    }
}

/// The lines trimmed, those left empty dropped, in order.
pub open spec fn kept_lines(ls: Seq<Seq<char>>) -> Seq<Seq<char>>
    decreases ls.len(),
{
    if ls.len() == 0 {
        seq![]
    } else if trim(ls.last()).len() > 0 {
        kept_lines(ls.drop_last()).push(trim(ls.last()))
    } else {
        kept_lines(ls.drop_last())
    }
}

/// The paths that a selector run reports: nothing when it failed or no key
/// confirmed the choice; otherwise every line after the key line, trimmed,
/// the empty ones dropped.
pub open spec fn selection(success: bool, text: Seq<char>) -> Seq<Seq<char>> {
    let k = line_end(text, 0);
    if !success || trim(text.subrange(0, k)).len() == 0 || k == text.len() {
        seq![]
    } else {
        kept_lines(split_lines(text.subrange(k + 1, text.len() as int)))
    }
}

/// Relies on `String::push`: appends one character.
#[verifier::external_body]
fn push_char(s: &mut String, c: char)
    ensures
        final(s)@ == old(s)@.push(c),
{
    s.push(c);
}

fn is_white_space(c: char) -> (r: bool)
    ensures
        r == white_space(c),
{
    let u = c as u32;
    (0x9 <= u && u <= 0xD) || u == 0x20 || u == 0x85 || u == 0xA0 || u == 0x1680 || (0x2000 <= u
        && u <= 0x200A) || u == 0x2028 || u == 0x2029 || u == 0x202F || u == 0x205F || u == 0x3000
}

fn chars_of(text: &str) -> (r: Vec<char>)
    ensures
        r@ == text@,
{
    let mut it = text.chars();
    let mut v: Vec<char> = Vec::new();
    loop
        invariant
            v@ + it.remaining() == text@,
            it.decrease() is Some,
        ensures
            v@ == text@,
        decreases it.decrease()->0,
    {
        let ghost before = it.remaining();
        match it.next() {
            Some(c) => {
                v.push(c);
                assert(v@ + it.remaining() =~= text@) by {
                    assert(before =~= seq![c] + it.remaining());
                }
            },
            None => {
                assert(v@ =~= text@);
                break ;
            },
        }
    }
    v
}

fn trim_bounds(cs: &Vec<char>, start: usize, end: usize) -> (r: (usize, usize))
    requires
        start <= end <= cs@.len(),
    ensures
        start <= r.0 <= r.1 <= end,
        cs@.subrange(r.0 as int, r.1 as int) == trim(cs@.subrange(start as int, end as int)),
{
    let mut a = start;
    while a < end && is_white_space(cs[a])
        invariant
            start <= a <= end <= cs@.len(),
            trim_start(cs@.subrange(start as int, end as int)) == trim_start(
                cs@.subrange(a as int, end as int),
            ),
        decreases end - a,
    {
        assert(cs@.subrange(a as int, end as int).drop_first() =~= cs@.subrange(
            a + 1,
            end as int,
        ));
        a = a + 1;
    }
    let mut b = end;
    while b > a && is_white_space(cs[b - 1])
        invariant
            start <= a <= b <= end <= cs@.len(),
            trim_end(cs@.subrange(a as int, end as int)) == trim_end(
                cs@.subrange(a as int, b as int),
            ),
        decreases b - a,
    {
        assert(cs@.subrange(a as int, b as int).drop_last() =~= cs@.subrange(
            a as int,
            b - 1,
        ));
        b = b - 1;
    }
    (a, b)
}

fn string_of(cs: &Vec<char>, a: usize, b: usize) -> (r: String)
    requires
        a <= b <= cs@.len(),
    ensures
        r@ == cs@.subrange(a as int, b as int),
{
    let mut s = String::new();
    let mut i = a;
    while i < b
        invariant
            a <= i <= b <= cs@.len(),
            s@ == cs@.subrange(a as int, i as int),
        decreases b - i,
    {
        push_char(&mut s, cs[i]);
        assert(s@ =~= cs@.subrange(a as int, i + 1));
        i = i + 1;
    }
    s
}

/// Parses what the selector printed into the chosen paths, given whether the
/// selector exited successfully.
pub fn selection_from_output(success: bool, text: &str) -> (r: Vec<String>)
    ensures
        views(r@) == selection(success, text@),
{
    let mut out: Vec<String> = Vec::new();
    if !success {
        assert(views(out@) =~= selection(success, text@));
        return out;
    }
    let cs = chars_of(text);
    let n = cs.len();
    let mut k: usize = 0;
    while k < n && cs[k] != '\n'
        invariant
            k <= n == cs@.len(),
            line_end(cs@, 0) == line_end(cs@, k as int),
        decreases n - k,
    {
        k = k + 1;
    }
    let (ka, kb) = trim_bounds(&cs, 0, k);
    if ka == kb || k == n {
        assert(views(out@) =~= selection(success, text@));
        return out;
    }
    let body_start = k + 1;
    let mut start = body_start;
    let mut i = body_start;
    let ghost mut done: Seq<Seq<char>> = seq![];
    assert(cs@.subrange(body_start as int, body_start as int) =~= Seq::<char>::empty());
    while i < n
        invariant
            body_start <= start <= i <= n == cs@.len(),
            split_lines(cs@.subrange(body_start as int, i as int)) == done.push(
                cs@.subrange(start as int, i as int),
            ),
            views(out@) == kept_lines(done),
        decreases n - i,
    {
        let ghost prefix = cs@.subrange(body_start as int, i + 1);
        assert(prefix.drop_last() =~= cs@.subrange(body_start as int, i as int));
        if cs[i] == '\n' {
            let (a, b) = trim_bounds(&cs, start, i);
            let ghost line = cs@.subrange(start as int, i as int);
            assert(done.push(line).drop_last() =~= done);
            if a < b {
                let l = string_of(&cs, a, b);
                out.push(l);
                assert(views(out@) =~= kept_lines(done).push(trim(line)));
            }
            proof {
                done = done.push(line);
            }
            start = i + 1;
            assert(cs@.subrange(start as int, i + 1) =~= Seq::<char>::empty());
        } else {
            assert(cs@.subrange(start as int, i + 1) =~= cs@.subrange(start as int, i as int).push(
                cs@[i as int],
            ));
            assert(done.push(cs@.subrange(start as int, i as int)).update(
                done.len() as int,
                cs@.subrange(start as int, i + 1),
            ) =~= done.push(cs@.subrange(start as int, i + 1)));
        }
        i = i + 1;
    }
    let (a, b) = trim_bounds(&cs, start, n);
    let ghost line = cs@.subrange(start as int, n as int);
    assert(done.push(line).drop_last() =~= done);
    if a < b {
        let l = string_of(&cs, a, b);
        out.push(l);
        assert(views(out@) =~= kept_lines(done).push(trim(line)));
    }
    assert(cs@ == text@);
    out
}

proof fn lemma_line_end_skip(s: Seq<char>, i: int, m: int)
    requires
        0 <= i <= m <= s.len(),
        forall|j: int| i <= j < m ==> s[j] != '\n',
    ensures
        line_end(s, i) == line_end(s, m),
    decreases m - i,
{
    if i < m {
        lemma_line_end_skip(s, i + 1, m);
    }
}

/// A selector that did not exit successfully selected nothing, whatever it
/// printed.
pub proof fn lemma_failed_run_selects_nothing(text: Seq<char>)
    ensures
        selection(false, text) == Seq::<Seq<char>>::empty(),
{
}

/// Output made of the key line alone, with or without its line feed, selects
/// nothing.
pub proof fn lemma_key_line_alone_selects_nothing(key: Seq<char>)
    requires
        forall|j: int| 0 <= j < key.len() ==> key[j] != '\n',
    ensures
        selection(true, key) == Seq::<Seq<char>>::empty(),
        selection(true, key + seq!['\n']) == Seq::<Seq<char>>::empty(),
{
    lemma_line_end_skip(key, 0, key.len() as int);
    let t = key + seq!['\n'];
    lemma_line_end_skip(t, 0, key.len() as int);
    let k = key.len() as int;
    assert(t[k] == '\n');
    assert(line_end(t, 0) == k);
    let body = t.subrange(k + 1, t.len() as int);
    assert(body =~= Seq::<char>::empty());
    let ls = split_lines(body);
    assert(ls == seq![Seq::<char>::empty()]);
    assert(ls.drop_last() =~= Seq::<Seq<char>>::empty());
    assert(trim_start(ls.last()) == ls.last());
    assert(trim(ls.last()).len() == 0);
    assert(kept_lines(ls.drop_last()) == Seq::<Seq<char>>::empty());
}

} // verus!
