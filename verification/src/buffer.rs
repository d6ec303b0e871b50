//! The line store: an ordered, read-only sequence of text lines, loaded by
//! splitting a text source on line terminators.

use vstd::prelude::*;

verus! {

/// The number of characters before the first `'\n'` in `s`, or `s.len()`
/// if `s` holds none.
pub open spec fn first_newline(s: Seq<char>) -> int
    decreases s.len(),
{
    if s.len() == 0 {
        0
    } else if s[0] == '\n' {
        0
    } else {
        1 + first_newline(s.drop_first())
    }
}

/// A carriage return directly before a line feed belongs to the terminator:
/// it is dropped from the stored line.
pub open spec fn strip_trailing_cr(line: Seq<char>) -> Seq<char> {
    if line.len() > 0 && line.last() == '\r' {
        line.drop_last()
    } else {
        line
    }
}

/// The lines of `s`, split at `'\n'` or `"\r\n"`, terminators discarded.
/// A final line without a terminator still counts; a trailing terminator
/// adds no empty line, and the empty text has no lines at all.
pub open spec fn split_lines(s: Seq<char>) -> Seq<Seq<char>>
    decreases s.len(),
    via split_lines_decreases
{
    if s.len() == 0 {
        Seq::empty()
    } else {
        let i = first_newline(s);
        if i == s.len() {
            seq![s]
        } else {
            seq![strip_trailing_cr(s.subrange(0, i))] + split_lines(
                s.subrange(i + 1, s.len() as int),
            )
        }
    }
}

#[via_fn]
proof fn split_lines_decreases(s: Seq<char>) {
    lemma_first_newline_bounds(s);
}

pub proof fn lemma_first_newline_bounds(s: Seq<char>)
    ensures
        0 <= first_newline(s) <= s.len(),
        first_newline(s) < s.len() ==> s[first_newline(s)] == '\n',
        forall|k: int| 0 <= k < first_newline(s) ==> s[k] != '\n',
    decreases s.len(),
{
    if s.len() == 0 {
    } else if s[0] == '\n' {
    } else {
        lemma_first_newline_bounds(s.drop_first());
        assert forall|k: int| 0 <= k < first_newline(s) implies s[k] != '\n' by {
            if k > 0 {
                assert(s.drop_first()[k - 1] != '\n');
            }
        }
    }
}

/// `first_newline` is the least index of `'\n'`: any position `m` with a
/// newline and none before it is exactly `first_newline(s)`.
pub proof fn lemma_first_newline_unique(s: Seq<char>, m: int)
    requires
        0 <= m <= s.len(),
        m < s.len() ==> s[m] == '\n',
        forall|k: int| 0 <= k < m ==> s[k] != '\n',
    ensures
        m < s.len() ==> first_newline(s) == m,
        m == s.len() ==> first_newline(s) == s.len(),
    decreases s.len(),
{
    lemma_first_newline_bounds(s);
    if s.len() == 0 {
    } else if s[0] == '\n' {
    } else {
        assert(m > 0);
        assert forall|k: int| 0 <= k < m - 1 implies s.drop_first()[k] != '\n' by {
            assert(s[k + 1] != '\n');
        }
        assert(m - 1 < s.drop_first().len() ==> s.drop_first()[m - 1] == '\n');
        lemma_first_newline_unique(s.drop_first(), m - 1);
    }
}

/// The ordered collection of text lines backing the view. Once loaded it is
/// never edited; its view is the sequence of the lines' character sequences.
pub struct Buffer {
    data: Vec<String>,
}

impl View for Buffer {
    type V = Seq<Seq<char>>;

    closed spec fn view(&self) -> Seq<Seq<char>> {
        self.data@.map_values(|line: String| line@)
    }
}

impl Buffer {
    /// An empty store: no lines at all.
    pub fn new() -> (buffer: Self)
        ensures
            buffer@ == Seq::<Seq<char>>::empty(),
    {
        let buffer = Buffer { data: Vec::new() };
        proof {
            assert(buffer@ =~= Seq::<Seq<char>>::empty());
        }
        buffer
    }

    /// How many lines the store holds.
    pub fn size(&self) -> (count: usize)
        ensures
            count == self@.len(),
    {
        self.data.len()
    }

    /// The line at `index`, exactly as stored; `None` past the end.
    pub fn get(&self, index: usize) -> (line: Option<String>)
        ensures
            index < self@.len() ==> (line matches Some(l) && l@ == self@[index as int]),
            index >= self@.len() ==> line is None,
    {
        if index < self.data.len() {
            Some(self.data[index].clone())
        } else {
            None
        }
    }

    pub fn is_empty(&self) -> (empty: bool)
        ensures
            empty == (self@.len() == 0),
    {
        self.data.is_empty()
    }

    /// Build the store from a text source already read into memory: split
    /// on `'\n'` or `"\r\n"`, discard the terminators, keep every line
    /// verbatim.
    pub fn load(text: &str) -> (buffer: Self)
        ensures
            buffer@ == split_lines(text@),
    {
        let ghost t = text@;
        let n = text.unicode_len();
        let mut data: Vec<String> = Vec::new();
        proof {
            assert(t.subrange(0, n as int) =~= t);
            assert(data@.map_values(|l: String| l@) + split_lines(t) =~= split_lines(t));
        }
        let mut start: usize = 0;
        let mut i: usize = 0;
        while i < n
            invariant
                start <= i <= n,
                n == t.len(),
                t == text@,
                forall|k: int| start <= k < i ==> t[k] != '\n',
                split_lines(t) == data@.map_values(|l: String| l@) + split_lines(
                    t.subrange(start as int, n as int),
                ),
            decreases n - i,
        {
            if text.get_char(i) == '\n' {
                let end = if i > start && text.get_char(i - 1) == '\r' {
                    i - 1
                } else {
                    i
                };
                let line = text.substring_char(start, end).to_owned();
                proof {
                    let rem = t.subrange(start as int, n as int);
                    assert forall|k: int| 0 <= k < i - start implies rem[k] != '\n' by {
                        assert(t[start + k] != '\n');
                    }
                    assert(rem[i - start] == '\n');
                    lemma_first_newline_unique(rem, i - start);
                    assert(rem.subrange(0, i - start) =~= t.subrange(start as int, i as int));
                    assert(rem.subrange(i - start + 1, rem.len() as int) =~= t.subrange(
                        i + 1,
                        n as int,
                    ));
                    assert(line@ == strip_trailing_cr(t.subrange(start as int, i as int))) by {
                        let whole = t.subrange(start as int, i as int);
                        if i > start && t[i - 1] == '\r' {
                            assert(whole.len() > 0 && whole.last() == '\r');
                            assert(whole.drop_last() =~= t.subrange(start as int, i - 1));
                        } else if i > start {
                            assert(whole.last() == t[i - 1]);
                        }
                    }
                    assert(data@.push(line).map_values(|l: String| l@) =~= data@.map_values(
                        |l: String| l@,
                    ).push(line@));
                    assert(split_lines(rem) == seq![line@] + split_lines(
                        t.subrange(i + 1, n as int),
                    ));
                    assert(data@.map_values(|l: String| l@) + split_lines(rem)
                        =~= data@.push(line).map_values(|l: String| l@) + split_lines(
                        t.subrange(i + 1, n as int),
                    ));
                }
                data.push(line);
                start = i + 1;
            }
            i = i + 1;
        }
        proof {
            let rem = t.subrange(start as int, n as int);
            assert forall|k: int| 0 <= k < rem.len() implies rem[k] != '\n' by {
                assert(t[start + k] != '\n');
            }
            lemma_first_newline_unique(rem, rem.len() as int);
        }
        if start < n {
            let line = text.substring_char(start, n).to_owned();
            proof {
                let rem = t.subrange(start as int, n as int);
                assert(split_lines(rem) == seq![rem]);
                assert(data@.push(line).map_values(|l: String| l@) =~= data@.map_values(
                    |l: String| l@,
                ).push(line@));
                assert(data@.map_values(|l: String| l@) + split_lines(rem) =~= data@.push(
                    line,
                ).map_values(|l: String| l@));
            }
            data.push(line);
        } else {
            proof {
                let rem = t.subrange(start as int, n as int);
                assert(rem.len() == 0);
                assert(split_lines(rem) == Seq::<Seq<char>>::empty());
                assert(data@.map_values(|l: String| l@) + split_lines(rem) =~= data@.map_values(
                    |l: String| l@,
                ));
            }
        }
        Buffer { data }
    }
}

} // verus!
