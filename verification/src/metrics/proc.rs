//! Process metrics read from `/proc`: the thread count in `/proc/self/stat`.
use crate::text::{all_digits, chars_of, digits_value, parse_digits};
use vstd::prelude::*;

verus! {

/// The text after the last occurrence of `c` in `s`, or all of `s` when `c` does not occur
/// (the first piece that `rsplit(c)` yields).
pub open spec fn after_last(s: Seq<char>, c: char) -> Seq<char>
    decreases s.len(),
{
    if s.len() == 0 {
        s
    } else if s.last() == c {
        Seq::empty()
    } else {
        after_last(s.drop_last(), c).push(s.last())
    }
}

/// The pieces of `s` between occurrences of `c`, as `split(c)` yields them.
pub open spec fn split_on(s: Seq<char>, c: char) -> Seq<Seq<char>>
    decreases s.len(),
{
    if s.len() == 0 {
        seq![Seq::empty()]
    } else {
        let rest = split_on(s.drop_first(), c);
        if s[0] == c {
            seq![Seq::<char>::empty()] + rest
        } else {
            rest.update(0, seq![s[0]] + rest[0])
        }
    }
}

/// The value `i64::from_str` reads from `t`: an optional `+` or `-`, then one or more ASCII
/// digits, with the value in range.
pub open spec fn spec_parse_i64(t: Seq<char>) -> Option<i64> {
    let neg = t.len() > 0 && t[0] == '-';
    let digits = if t.len() > 0 && (t[0] == '-' || t[0] == '+') { t.drop_first() } else { t };
    if digits.len() == 0 || !all_digits(digits) {
        None
    } else {
        let v = if neg { -digits_value(digits) } else { digits_value(digits) as int };
        if i64::MIN <= v <= i64::MAX { Some(v as i64) } else { None }
    }
}

/// The number of threads from the text of `/proc/self/stat`: the 19th space-separated field
/// after the last `)` (the process name, in parentheses, may itself hold spaces and `)`).
pub open spec fn spec_num_threads(stat: Seq<char>) -> Option<i64> {
    let fields = split_on(after_last(stat, ')'), ' ');
    if fields.len() > 18 {
        spec_parse_i64(fields[18])
    } else {
        None
    }
}

proof fn lemma_split_on_nonempty(s: Seq<char>, c: char)
    ensures
        split_on(s, c).len() >= 1,
    decreases s.len(),
{
    if s.len() > 0 {
        lemma_split_on_nonempty(s.drop_first(), c);
    }
}

/// Reads an `i64` as `str::parse` does.
pub fn parse_i64(t: &Vec<char>, lo: usize, hi: usize) -> (r: Option<i64>)
    requires
        lo <= hi <= t.len(),
    ensures
        r == spec_parse_i64(t@.subrange(lo as int, hi as int)),
{
    let ghost s = t@.subrange(lo as int, hi as int);
    if lo == hi {
        return None;
    }
    let neg = t[lo] == '-';
    let start = if t[lo] == '-' || t[lo] == '+' { lo + 1 } else { lo };
    assert(s[0] == t@[lo as int]);
    proof {
        if t@[lo as int] == '-' || t@[lo as int] == '+' {
            assert(s.drop_first() =~= t@.subrange(start as int, hi as int));
        } else {
            assert(s =~= t@.subrange(start as int, hi as int));
        }
    }
    if start == hi {
        return None;
    }
    let max: u64 = if neg { 9223372036854775808 } else { 9223372036854775807 };
    match parse_digits(t, start, hi, max) {
        None => None,
        Some(v) => {
            if neg {
                if v == 9223372036854775808 {
                    Some(-9223372036854775808i64)
                } else {
                    Some(-(v as i64))
                }
            } else {
                Some(v as i64)
            }
        },
    }
}

/// Whether `c` does not occur in `a`.
pub open spec fn lacks(a: Seq<char>, c: char) -> bool {
    forall|i: int| 0 <= i < a.len() ==> a[i] != c
}

proof fn lemma_split_no_sep(a: Seq<char>, c: char)
    requires
        lacks(a, c),
    ensures
        split_on(a, c) == seq![a],
    decreases a.len(),
{
    if a.len() > 0 {
        assert(lacks(a.drop_first(), c)) by {
            assert forall|i: int| 0 <= i < a.drop_first().len() implies a.drop_first()[i] != c by {
                assert(a.drop_first()[i] == a[i + 1]);
            }
        }
        lemma_split_no_sep(a.drop_first(), c);
        assert(a[0] != c);
        assert(seq![a[0]] + a.drop_first() =~= a);
        assert(split_on(a, c) =~= seq![a]);
    } else {
        assert(a =~= Seq::<char>::empty());
        assert(split_on(a, c) =~= seq![a]);
    }
}

proof fn lemma_split_sep(a: Seq<char>, b: Seq<char>, c: char)
    requires
        lacks(a, c),
    ensures
        split_on(a + seq![c] + b, c) == seq![a] + split_on(b, c),
    decreases a.len(),
{
    let s = a + seq![c] + b;
    if a.len() == 0 {
        assert(a =~= Seq::<char>::empty());
        assert(s =~= seq![c] + b);
        assert(s[0] == c);
        assert(s.drop_first() =~= b);
        assert(split_on(s, c) =~= seq![a] + split_on(b, c));
    } else {
        assert(lacks(a.drop_first(), c)) by {
            assert forall|i: int| 0 <= i < a.drop_first().len() implies a.drop_first()[i] != c by {
                assert(a.drop_first()[i] == a[i + 1]);
            }
        }
        assert(s[0] == a[0]);
        assert(a[0] != c);
        lemma_split_sep(a.drop_first(), b, c);
        assert(s.drop_first() =~= a.drop_first() + seq![c] + b);
        assert(seq![a[0]] + a.drop_first() =~= a);
        assert(split_on(s, c) =~= seq![a] + split_on(b, c));
    }
}

/// The number of threads from the text of `/proc/self/stat`.
#[verifier::rlimit(40)]
pub fn num_threads(stat: &str) -> (r: Option<i64>)
    ensures
        r == spec_num_threads(stat@),
{
    let c = chars_of(stat);
    let n = c.len();
    // the start of the text after the last ')'
    let mut start: usize = n;
    assert(c@.subrange(0, n as int) =~= c@);
    assert(c@.subrange(n as int, n as int) =~= Seq::<char>::empty());
    while start > 0 && c[start - 1] != ')'
        invariant
            start <= n,
            n == c.len(),
            after_last(c@, ')') == after_last(c@.subrange(0, start as int), ')') + c@.subrange(start as int, n as int),
        decreases start,
    {
        proof {
            let p = c@.subrange(0, start as int);
            assert(p.drop_last() =~= c@.subrange(0, start - 1));
            assert(c@.subrange(start - 1, n as int) =~= seq![p.last()] + c@.subrange(start as int, n as int));
            assert(after_last(p, ')') == after_last(p.drop_last(), ')').push(p.last()));
            assert(after_last(c@, ')') =~= after_last(c@.subrange(0, start - 1), ')') + c@.subrange(start - 1, n as int));
        }
        start = start - 1;
    }
    proof {
        assert(after_last(c@.subrange(0, start as int), ')') =~= Seq::<char>::empty()) by {
            if start > 0 {
                assert(c@.subrange(0, start as int).last() == ')');
            } else {
                assert(c@.subrange(0, 0) =~= Seq::<char>::empty());
            }
        }
    }
    let ghost after = c@.subrange(start as int, n as int);
    assert(after =~= after_last(c@, ')'));
    assert(c@.subrange(0, n as int) =~= c@);
    // the start of field 18; fields are separated by single spaces
    let mut field: usize = 0;
    let mut fs: usize = start;
    let mut i: usize = start;
    let ghost mut fields: Seq<Seq<char>> = Seq::empty();
    assert(after =~= c@.subrange(fs as int, n as int));
    while i < n && field < 18
        invariant
            start <= fs <= i <= n,
            n == c.len(),
            field <= 18,
            fields.len() == field,
            split_on(after, ' ') == fields + split_on(c@.subrange(fs as int, n as int), ' '),
            lacks(c@.subrange(fs as int, i as int), ' '),
            field == 18 ==> i == fs,
        decreases n - i,
    {
        if c[i] == ' ' {
            proof {
                let a = c@.subrange(fs as int, i as int);
                let b = c@.subrange(i + 1, n as int);
                assert(c@.subrange(fs as int, n as int) =~= a + seq![' '] + b);
                lemma_split_sep(a, b, ' ');
                fields = fields.push(a);
                assert(split_on(after, ' ') =~= fields + split_on(b, ' '));
            }
            field = field + 1;
            fs = i + 1;
        }
        i = i + 1;
        assert(lacks(c@.subrange(fs as int, i as int), ' ')) by {
            assert forall|j: int| 0 <= j < c@.subrange(fs as int, i as int).len() implies c@.subrange(fs as int, i as int)[j] != ' ' by {
                assert(c@.subrange(fs as int, i as int)[j] == c@[fs + j]);
                if fs + j < i - 1 {
                    assert(c@.subrange(fs as int, i - 1)[j] == c@[fs + j]);
                }
            }
        }
    }
    if field < 18 {
        proof {
            lemma_split_no_sep(c@.subrange(fs as int, n as int), ' ');
        }
        return None;
    }
    let mut e = fs;
    while e < n && c[e] != ' '
        invariant
            fs <= e <= n,
            n == c.len(),
            lacks(c@.subrange(fs as int, e as int), ' '),
        decreases n - e,
    {
        e = e + 1;
        assert(lacks(c@.subrange(fs as int, e as int), ' ')) by {
            assert forall|j: int| 0 <= j < c@.subrange(fs as int, e as int).len() implies c@.subrange(fs as int, e as int)[j] != ' ' by {
                assert(c@.subrange(fs as int, e as int)[j] == c@[fs + j]);
                if fs + j < e - 1 {
                    assert(c@.subrange(fs as int, e - 1)[j] == c@[fs + j]);
                }
            }
        }
    }
    proof {
        let a = c@.subrange(fs as int, e as int);
        if e == n {
            lemma_split_no_sep(a, ' ');
        } else {
            let b = c@.subrange(e + 1, n as int);
            assert(c@.subrange(fs as int, n as int) =~= a + seq![' '] + b);
            lemma_split_sep(a, b, ' ');
        }
        assert(split_on(after, ' ')[18] == a);
    }
    parse_i64(&c, fs, e)
}

} // verus!
