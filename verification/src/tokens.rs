//! The tokenizer: one raw input line is read through two views, a
//! whitespace-delimited one carrying command and flag keywords, and a
//! quote-delimited one carrying the literal argument values.

use vstd::prelude::*;
use vstd::string::StrSliceExecFns;

verus! {

/// The characters that count as whitespace when a line is trimmed.
pub open spec fn is_space(c: char) -> bool {
    c == ' ' || c == '\t' || c == '\n' || c == '\r'
}

/// `s` with its leading whitespace removed.
pub open spec fn trim_front(s: Seq<char>) -> Seq<char>
    decreases s.len(),
{
    if s.len() > 0 && is_space(s[0]) {
        trim_front(s.drop_first())
    } else {
        s
    }
}

/// `s` with its trailing whitespace removed.
pub open spec fn trim_back(s: Seq<char>) -> Seq<char>
    decreases s.len(),
{
    if s.len() > 0 && is_space(s.last()) {
        trim_back(s.drop_last())
    } else {
        s
    }
}

/// `s` with both leading and trailing whitespace removed.
pub open spec fn trim_spec(s: Seq<char>) -> Seq<char> {
    trim_back(trim_front(s))
}

/// `s` split on every occurrence of `sep`. Consecutive separators yield
/// empty segments, and the result always holds at least one segment.
pub open spec fn split_spec(s: Seq<char>, sep: char) -> Seq<Seq<char>>
    decreases s.len(),
{
    if s.len() == 0 {
        seq![Seq::<char>::empty()]
    } else {
        let rest = split_spec(s.drop_last(), sep);
        if s.last() == sep {
            rest.push(Seq::<char>::empty())
        } else {
            rest.update(rest.len() - 1, rest.last().push(s.last()))
        }
    }
}

/// A split always yields at least one segment, so the first segment of a
/// split line can be read unconditionally.
pub proof fn lemma_split_len(s: Seq<char>, sep: char)
    ensures
        split_spec(s, sep).len() >= 1,
    decreases s.len(),
{
    if s.len() > 0 {
        lemma_split_len(s.drop_last(), sep);
    }
}

fn is_space_char(c: char) -> (b: bool)
    ensures
        b == is_space(c),
{
    c == ' ' || c == '\t' || c == '\n' || c == '\r'
}

/// Character-for-character string comparison.
pub fn str_eq(a: &str, b: &str) -> (r: bool)
    ensures
        r == (a@ == b@),
{
    let na: usize = a.unicode_len();
    let nb: usize = b.unicode_len();
    if na != nb {
        return false;
    }
    let mut i: usize = 0;
    while i < na
        invariant
            na == a@.len(),
            nb == b@.len(),
            na == nb,
            i <= na,
            forall|k: int| 0 <= k < i ==> a@[k] == b@[k],
        decreases na - i,
    {
        if a.get_char(i) != b.get_char(i) {
            return false;
        }
        i += 1;
    }
    proof {
        assert(a@ =~= b@);
    }
    true
}

proof fn lemma_trim_front_at(s: Seq<char>, i: int)
    requires
        0 <= i <= s.len(),
        forall|k: int| 0 <= k < i ==> is_space(s[k]),
        i < s.len() ==> !is_space(s[i]),
    ensures
        trim_front(s) == s.subrange(i, s.len() as int),
    decreases i,
{
    if i == 0 {
        assert(s.subrange(0, s.len() as int) =~= s);
    } else {
        lemma_trim_front_at(s.drop_first(), i - 1);
        assert(s.drop_first().subrange(i - 1, s.len() - 1) =~= s.subrange(i, s.len() as int));
    }
}

proof fn lemma_trim_back_at(s: Seq<char>, j: int)
    requires
        0 <= j <= s.len(),
        forall|k: int| j <= k < s.len() ==> is_space(s[k]),
        j > 0 ==> !is_space(s[j - 1]),
    ensures
        trim_back(s) == s.subrange(0, j),
    decreases s.len(),
{
    if j == s.len() {
        assert(s.subrange(0, j) =~= s);
    } else {
        lemma_trim_back_at(s.drop_last(), j);
        assert(s.drop_last().subrange(0, j) =~= s.subrange(0, j));
    }
}

/// `s` trimmed of leading and trailing whitespace.
pub fn trimmed<'a>(s: &'a str) -> (t: &'a str)
    ensures
        t@ == trim_spec(s@),
{
    let n: usize = s.unicode_len();
    let mut i: usize = 0;
    while i < n && is_space_char(s.get_char(i))
        invariant
            i <= n,
            n == s@.len(),
            forall|k: int| 0 <= k < i ==> is_space(s@[k]),
        decreases n - i,
    {
        i += 1;
    }
    let mut j: usize = n;
    while j > i && is_space_char(s.get_char(j - 1))
        invariant
            i <= j <= n,
            n == s@.len(),
            forall|k: int| j <= k < n ==> is_space(s@[k]),
        decreases j,
    {
        j -= 1;
    }
    proof {
        lemma_trim_front_at(s@, i as int);
        let f = s@.subrange(i as int, n as int);
        lemma_trim_back_at(f, j - i);
        assert(f.subrange(0, j - i) =~= s@.subrange(i as int, j as int));
    }
    s.substring_char(i, j)
}

/// `s` split on every occurrence of `sep`.
pub fn split_on_char(s: &str, sep: char) -> (r: Vec<String>)
    ensures
        r.deep_view() == split_spec(s@, sep),
{
    let n: usize = s.unicode_len();
    let mut done: Vec<String> = Vec::new();
    let mut start: usize = 0;
    let mut i: usize = 0;
    proof {
        assert(s@.subrange(0, 0) =~= Seq::<char>::empty());
        assert(done.deep_view() =~~= Seq::<Seq<char>>::empty());
        assert(split_spec(s@.subrange(0, 0), sep) =~~= done.deep_view().push(
            s@.subrange(0, 0),
        ));
    }
    while i < n
        invariant
            start <= i <= n,
            n == s@.len(),
            split_spec(s@.subrange(0, i as int), sep) == done.deep_view().push(
                s@.subrange(start as int, i as int),
            ),
        decreases n - i,
    {
        let ghost prefix = s@.subrange(0, i as int);
        let ghost prefix_next = s@.subrange(0, i + 1);
        proof {
            assert(prefix_next.drop_last() =~= prefix);
            assert(prefix_next.last() == s@[i as int]);
        }
        let c = s.get_char(i);
        if c == sep {
            let tok = s.substring_char(start, i).to_owned();
            let ghost old_done = done.deep_view();
            done.push(tok);
            proof {
                assert(done.deep_view() =~~= old_done.push(s@.subrange(
                    start as int,
                    i as int,
                )));
                assert(split_spec(prefix_next, sep) =~~= done.deep_view().push(s@.subrange(
                    i + 1,
                    i + 1,
                )));
            }
            start = i + 1;
        } else {
            proof {
                let rest = split_spec(prefix, sep);
                lemma_split_len(prefix, sep);
                assert(rest.last() == s@.subrange(start as int, i as int));
                assert(rest.update(rest.len() - 1, rest.last().push(s@[i as int]))
                    =~~= done.deep_view().push(s@.subrange(start as int, i + 1)));
            }
        }
        i += 1;
    }
    proof {
        assert(s@.subrange(0, n as int) =~= s@);
    }
    let tok = s.substring_char(start, n).to_owned();
    let ghost old_done = done.deep_view();
    done.push(tok);
    proof {
        assert(done.deep_view() =~~= old_done.push(s@.subrange(start as int, n as int)));
    }
    done
}

/// Both token views of one raw line: the trimmed line split on single
/// spaces, and the trimmed line split on double quotes. In the quoted
/// view, segments at even positions lie outside quotes and segments at
/// odd positions are the literal contents of quoted arguments.
pub fn tokenize(line: &str) -> (r: (Vec<String>, Vec<String>))
    ensures
        r.0.deep_view() == split_spec(trim_spec(line@), ' '),
        r.1.deep_view() == split_spec(trim_spec(line@), '"'),
{
    let t = trimmed(line);
    let whites = split_on_char(t, ' ');
    let quoted = split_on_char(t, '"');
    (whites, quoted)
}

} // verus!
