//! The configuration extractor: a VM's display name is the value of the
//! first `displayname = "<value>"` line of its configuration file, and the
//! sentinel "Unknown" where no line carries one. The pattern is searched for
//! anywhere in a line; the value runs from the opening quote to the last
//! quote of the line.

use vstd::prelude::*;

verus! {

/// The literal text that opens a display-name setting, opening quote included.
pub open spec fn name_prefix() -> Seq<char> {
    seq!['d', 'i', 's', 'p', 'l', 'a', 'y', 'n', 'a', 'm', 'e', ' ', '=', ' ', '"']
}

/// The sentinel name of a VM whose configuration carries no display name.
pub open spec fn unknown_name() -> Seq<char> {
    "Unknown"@
}

/// The display-name prefix stands in `line` at position `i`.
pub open spec fn prefix_at(line: Seq<char>, i: int) -> bool {
    &&& 0 <= i
    &&& i + 15 <= line.len()
    &&& forall|k: int| 0 <= k < 15 ==> line[i + k] == name_prefix()[k]
}

/// Some position of `line` at or after `k` holds a quote.
pub open spec fn quote_at_or_after(line: Seq<char>, k: int) -> bool {
    exists|j: int| k <= j < line.len() && line[j] == '"'
}

/// A line carries a display name: the prefix stands somewhere in it, with a
/// closing quote after it.
pub open spec fn line_matches(line: Seq<char>) -> bool {
    exists|i: int| prefix_at(line, i) && quote_at_or_after(line, i + 15)
}

/// The first position of `line` at or after `k` where the prefix stands;
/// `line.len()` where there is none.
pub open spec fn first_prefix_from(line: Seq<char>, k: int) -> int
    decreases line.len() - k,
{
    if k >= line.len() {
        line.len() as int
    } else if prefix_at(line, k) {
        k
    } else {
        first_prefix_from(line, k + 1)
    }
}

/// The last position of `line` before `k` that holds a quote; `-1` where
/// there is none.
pub open spec fn last_quote_before(line: Seq<char>, k: int) -> int
    decreases k,
{
    if k <= 0 {
        -1
    } else if line[k - 1] == '"' {
        k - 1
    } else {
        last_quote_before(line, k - 1)
    }
}

/// The display name that a matching line carries: what stands between the
/// first occurrence of the prefix and the last quote of the line.
pub open spec fn line_value(line: Seq<char>) -> Seq<char>
    recommends
        line_matches(line),
{
    line.subrange(first_prefix_from(line, 0) + 15, last_quote_before(line, line.len() as int))
}

/// The display name that the configuration lines from `k` on yield: the
/// value of the first matching line, the sentinel where none matches.
pub open spec fn extract_from(lines: Seq<Seq<char>>, k: int) -> Seq<char>
    decreases lines.len() - k,
{
    if k < 0 || k >= lines.len() {
        unknown_name()
    } else if line_matches(lines[k]) {
        line_value(lines[k])
    } else {
        extract_from(lines, k + 1)
    }
}

/// The display name that a configuration file with the given lines yields.
pub open spec fn extract_name_spec(lines: Seq<Seq<char>>) -> Seq<char> {
    extract_from(lines, 0)
}

proof fn lemma_first_prefix_is(line: Seq<char>, k: int, i: int)
    requires
        0 <= k <= i,
        prefix_at(line, i),
        forall|m: int| k <= m < i ==> !prefix_at(line, m),
    ensures
        first_prefix_from(line, k) == i,
    decreases i - k,
{
    if k < i {
        lemma_first_prefix_is(line, k + 1, i);
    }
}

proof fn lemma_last_quote_is(line: Seq<char>, k: int, j: int)
    requires
        0 <= j < k <= line.len(),
        line[j] == '"',
        forall|m: int| j < m < k ==> line[m] != '"',
    ensures
        last_quote_before(line, k) == j,
    decreases k,
{
    if j < k - 1 {
        lemma_last_quote_is(line, k - 1, j);
    }
}

/// The verified matcher for one configuration line: `Some` exactly where the
/// line carries a display name, and then the value itself.
pub fn extract_line_name(line: &str) -> (r: Option<String>)
    ensures
        match r {
            Some(s) => line_matches(line@) && s@ == line_value(line@),
            None => !line_matches(line@),
        },
{
    let n = line.unicode_len();
    let found = find_prefix(line, n);
    match found {
        None => {
            assert(!line_matches(line@));
            None
        },
        Some(i) => {
            match find_last_quote(line, i + 15, n) {
                Some(j) => {
                    proof {
                        assert(quote_at_or_after(line@, i + 15));
                        assert(line_matches(line@));
                    }
                    let s = line.substring_char(i + 15, j);
                    Some(s.to_owned())
                },
                None => {
                    proof {
                        assert(!line_matches(line@)) by {
                            if line_matches(line@) {
                                let i2 = choose|i2: int|
                                    prefix_at(line@, i2) && quote_at_or_after(line@, i2 + 15);
                                assert(i2 >= i);
                                let j2 = choose|j2: int|
                                    i2 + 15 <= j2 < line@.len() && line@[j2] == '"';
                                assert(line@[j2] != '"');
                            }
                        }
                    }
                    None
                },
            }
        },
    }
}

fn prefix_char(k: usize) -> (c: char)
    requires
        k < 15,
    ensures
        c == name_prefix()[k as int],
{
    match k {
        0 => 'd',
        1 => 'i',
        2 => 's',
        3 => 'p',
        4 => 'l',
        5 => 'a',
        6 => 'y',
        7 => 'n',
        8 => 'a',
        9 => 'm',
        10 => 'e',
        11 => ' ',
        12 => '=',
        13 => ' ',
        _ => '"',
    }
}

fn prefix_at_check(line: &str, i: usize, n: usize) -> (b: bool)
    requires
        n == line@.len(),
        i + 15 <= n,
    ensures
        b == prefix_at(line@, i as int),
{
    let mut k: usize = 0;
    while k < 15
        invariant
            k <= 15,
            n == line@.len(),
            i + 15 <= n,
            forall|m: int| 0 <= m < k ==> line@[i + m] == name_prefix()[m],
        decreases 15 - k,
    {
        let c = line.get_char(i + k);
        if c != prefix_char(k) {
            assert(!prefix_at(line@, i as int));
            return false;
        }
        k = k + 1;
    }
    true
}

fn find_prefix(line: &str, n: usize) -> (r: Option<usize>)
    requires
        n == line@.len(),
    ensures
        match r {
            Some(i) => {
                &&& first_prefix_from(line@, 0) == i
                &&& prefix_at(line@, i as int)
                &&& forall|m: int| 0 <= m < i ==> !prefix_at(line@, m)
            },
            None => forall|m: int| !prefix_at(line@, m),
        },
{
    if n < 15 {
        assert(forall|m: int| !prefix_at(line@, m));
        return None;
    }
    let mut i: usize = 0;
    while i <= n - 15
        invariant
            n == line@.len(),
            15 <= n,
            i <= n,
            forall|m: int| 0 <= m < i ==> !prefix_at(line@, m),
        decreases n - i,
    {
        if prefix_at_check(line, i, n) {
            proof {
                lemma_first_prefix_is(line@, 0, i as int);
            }
            return Some(i);
        }
        i = i + 1;
    }
    assert forall|m: int| !prefix_at(line@, m) by {
        if 0 <= m < i {
        } else if m >= i {
            assert(m + 15 > n);
        }
    }
    None
}

fn find_last_quote(line: &str, lo: usize, n: usize) -> (r: Option<usize>)
    requires
        n == line@.len(),
        lo <= n,
    ensures
        match r {
            Some(j) => {
                &&& lo <= j < n
                &&& line@[j as int] == '"'
                &&& last_quote_before(line@, n as int) == j
            },
            None => forall|m: int| lo <= m < n ==> line@[m] != '"',
        },
{
    let mut j: usize = n;
    while j > lo
        invariant
            lo <= j <= n,
            n == line@.len(),
            forall|m: int| j <= m < n ==> line@[m] != '"',
        decreases j,
    {
        let c = line.get_char(j - 1);
        if c == '"' {
            proof {
                lemma_last_quote_is(line@, n as int, j - 1);
            }
            return Some(j - 1);
        }
        j = j - 1;
    }
    None
}

/// Extract the VM display name from the lines of a `.vmx` configuration
/// file: the value of the first line that carries one, or "Unknown".
pub fn extract_vmx_name(lines: &Vec<String>) -> (name: String)
    ensures
        name@ == extract_name_spec(lines.deep_view()),
{
    let mut k: usize = 0;
    while k < lines.len()
        invariant
            k <= lines.len(),
            extract_from(lines.deep_view(), 0) == extract_from(lines.deep_view(), k as int),
        decreases lines.len() - k,
    {
        proof {
            assert(lines.deep_view()[k as int] == lines@[k as int]@);
        }
        match extract_line_name(lines[k].as_str()) {
            Some(s) => {
                return s;
            },
            None => {},
        }
        k = k + 1;
    }
    "Unknown".to_owned()
}

/// A line that is exactly the display-name prefix, then a value, then a
/// closing quote, carries exactly that value. With no further quote in the
/// value the line reads `displayname = "<value>"`.
pub proof fn lemma_extract_line_form(x: Seq<char>)
    ensures
        line_matches(name_prefix() + x + seq!['"']),
        line_value(name_prefix() + x + seq!['"']) == x,
{
    let line = name_prefix() + x + seq!['"'];
    assert(line.len() == 16 + x.len());
    assert forall|k: int| 0 <= k < 15 implies line[k] == name_prefix()[k] by {
        assert(line[k] == name_prefix()[k]);
    }
    assert(prefix_at(line, 0));
    assert(line[line.len() - 1] == '"');
    assert(quote_at_or_after(line, 15));
    assert(line_matches(line));
    assert(first_prefix_from(line, 0) == 0);
    assert(last_quote_before(line, line.len() as int) == line.len() - 1);
    assert(line_value(line) =~= x);
}

/// Where no line carries a display name, extraction yields the sentinel.
pub proof fn lemma_extract_no_match(lines: Seq<Seq<char>>)
    requires
        forall|j: int| 0 <= j < lines.len() ==> !line_matches(lines[j]),
    ensures
        extract_name_spec(lines) == unknown_name(),
{
    lemma_extract_from_no_match(lines, 0);
}

proof fn lemma_extract_from_no_match(lines: Seq<Seq<char>>, k: int)
    requires
        0 <= k,
        forall|j: int| 0 <= j < lines.len() ==> !line_matches(lines[j]),
    ensures
        extract_from(lines, k) == unknown_name(),
    decreases lines.len() - k,
{
    if k < lines.len() {
        lemma_extract_from_no_match(lines, k + 1);
    }
}

/// The first matching line wins: where line `k` carries a display name and
/// no earlier line does, later lines carry no weight.
pub proof fn lemma_extract_first_match(lines: Seq<Seq<char>>, k: int)
    requires
        0 <= k < lines.len(),
        line_matches(lines[k]),
        forall|j: int| 0 <= j < k ==> !line_matches(lines[j]),
    ensures
        extract_name_spec(lines) == line_value(lines[k]),
{
    lemma_extract_from_first_match(lines, 0, k);
}

proof fn lemma_extract_from_first_match(lines: Seq<Seq<char>>, m: int, k: int)
    requires
        0 <= m <= k < lines.len(),
        line_matches(lines[k]),
        forall|j: int| m <= j < k ==> !line_matches(lines[j]),
    ensures
        extract_from(lines, m) == line_value(lines[k]),
    decreases k - m,
{
    if m < k {
        lemma_extract_from_first_match(lines, m + 1, k);
    }
}

} // verus!
