//! The framing of the tasks file: one record on each line, each line ended
//! by a single newline.

use vstd::prelude::*;

verus! {

/// The newline byte that ends a line.
pub const NEWLINE: u8 = 10;

/// The carriage return that may stand before a newline.
pub const CARRIAGE_RETURN: u8 = 13;

/// The position of the first newline in `data`, or the length of `data`
/// where it holds none.
pub open spec fn first_newline(data: Seq<u8>) -> int
    decreases data.len(),
{
    if data.len() == 0 {
        0
    } else if data[0] == NEWLINE {
        0
    } else {
        1 + first_newline(data.drop_first())
    }
}

/// `line` without a carriage return at its end.
pub open spec fn without_carriage_return(line: Seq<u8>) -> Seq<u8> {
    if line.len() > 0 && line.last() == CARRIAGE_RETURN {
        line.drop_last()
    } else {
        line
    }
}

/// The lines of `data`. A line ends at a newline, which is no part of it,
/// nor is a carriage return just before that newline. What follows the last
/// newline is a line of its own unless it is empty.
pub open spec fn lines_of(data: Seq<u8>) -> Seq<Seq<u8>>
    decreases data.len(),
{
    if data.len() == 0 {
        Seq::empty()
    } else {
        let end = first_newline(data);
        if end < 0 || end >= data.len() {
            seq![data]
        } else {
            seq![without_carriage_return(data.take(end))] + lines_of(data.skip(end + 1))
        }
    }
}

/// The file that holds `lines`: each line followed by a newline.
pub open spec fn text_of(lines: Seq<Seq<u8>>) -> Seq<u8>
    decreases lines.len(),
{
    if lines.len() == 0 {
        Seq::empty()
    } else {
        lines[0] + seq![NEWLINE] + text_of(lines.drop_first())
    }
}

/// Whether `line` can stand on a line of its own: it holds no newline and
/// does not end in a carriage return.
pub open spec fn is_line(line: Seq<u8>) -> bool {
    &&& forall|i: int| 0 <= i < line.len() ==> line[i] != NEWLINE
    &&& !(line.len() > 0 && line.last() == CARRIAGE_RETURN)
}

/// The contents of `lines`, in order.
pub open spec fn contents(lines: Seq<Vec<u8>>) -> Seq<Seq<u8>> {
    Seq::new(lines.len(), |i: int| lines[i]@)
}

/// Where the first `upto` bytes of `data` hold no newline, the first
/// newline stands at `upto` if there is one there, and `data` holds none if
/// `upto` is its length.
pub proof fn lemma_first_newline(data: Seq<u8>, upto: int)
    requires
        0 <= upto <= data.len(),
        forall|i: int| 0 <= i < upto ==> data[i] != NEWLINE,
    ensures
        upto <= first_newline(data) <= data.len(),
        upto < data.len() && data[upto] == NEWLINE ==> first_newline(data) == upto,
    decreases data.len(),
{
    if data.len() > 0 && data[0] != NEWLINE {
        let rest = data.drop_first();
        if upto > 0 {
            assert forall|i: int| 0 <= i < upto - 1 implies rest[i] != NEWLINE by {
                assert(rest[i] == data[i + 1]);
            }
            lemma_first_newline(rest, upto - 1);
        } else {
            lemma_first_newline(rest, 0);
        }
    }
}

/// The lines that were written to a file are the lines that are read from
/// it, as long as each of them can stand on a line of its own.
pub proof fn lemma_lines_round_trip(lines: Seq<Seq<u8>>)
    requires
        forall|i: int| 0 <= i < lines.len() ==> is_line(#[trigger] lines[i]),
    ensures
        lines_of(text_of(lines)) == lines,
    decreases lines.len(),
{
    if lines.len() > 0 {
        let first = lines[0];
        let rest = lines.drop_first();
        let text = text_of(lines);
        assert(is_line(first));
        assert forall|i: int| 0 <= i < rest.len() implies is_line(#[trigger] rest[i]) by {
            assert(rest[i] == lines[i + 1]);
        }
        lemma_lines_round_trip(rest);
        let end = first.len() as int;
        assert forall|i: int| 0 <= i < end implies text[i] != NEWLINE by {
            assert(text[i] == first[i]);
        }
        assert(text[end] == NEWLINE);
        lemma_first_newline(text, end);
        assert(text.take(end) =~= first);
        assert(text.skip(end + 1) =~= text_of(rest));
        assert(lines_of(text) =~= seq![first] + rest);
        assert(seq![first] + rest =~= lines);
    } else {
        assert(lines_of(text_of(lines)) =~= lines);
    }
}

/// Splits the contents of a file into its lines.
#[must_use]
pub fn split_lines(data: &[u8]) -> (lines: Vec<Vec<u8>>)
    ensures
        contents(lines@) == lines_of(data@),
{
    let mut lines: Vec<Vec<u8>> = Vec::new();
    let mut line: Vec<u8> = Vec::new();
    let mut start: usize = 0;
    let mut at: usize = 0;
    assert(data@.skip(0) =~= data@);
    assert(contents(lines@) + lines_of(data@.skip(0)) =~= lines_of(data@));
    while at < data.len()
        invariant
            start <= at <= data.len(),
            line@ == data@.subrange(start as int, at as int),
            forall|i: int| start <= i < at ==> data@[i] != NEWLINE,
            lines_of(data@) == contents(lines@) + lines_of(data@.skip(start as int)),
        decreases data.len() - at,
    {
        let byte = data[at];
        if byte == NEWLINE {
            let ghost rest = data@.skip(start as int);
            let ghost before = contents(lines@);
            proof {
                assert forall|i: int| 0 <= i < at - start implies rest[i] != NEWLINE by {
                    assert(rest[i] == data@[start + i]);
                }
                assert(rest[at - start] == NEWLINE);
                lemma_first_newline(rest, at - start);
                assert(rest.take(at - start) =~= line@);
                assert(rest.skip(at - start + 1) =~= data@.skip(at + 1));
            }
            let ghost whole = line@;
            if line.len() > 0 && line[line.len() - 1] == CARRIAGE_RETURN {
                line.pop();
            }
            assert(line@ =~= without_carriage_return(whole));
            lines.push(line);
            line = Vec::new();
            start = at + 1;
            proof {
                assert(contents(lines@) =~= before + seq![without_carriage_return(whole)]);
                assert(lines_of(data@) =~= contents(lines@) + lines_of(data@.skip(start as int)));
                assert(line@ =~= data@.subrange(start as int, at + 1));
            }
        } else {
            line.push(byte);
            assert(line@ =~= data@.subrange(start as int, at + 1));
        }
        at += 1;
    }
    let ghost rest = data@.skip(start as int);
    if start < data.len() {
        proof {
            assert forall|i: int| 0 <= i < rest.len() implies rest[i] != NEWLINE by {
                assert(rest[i] == data@[start + i]);
            }
            lemma_first_newline(rest, rest.len() as int);
            assert(line@ =~= rest);
        }
        let ghost before = contents(lines@);
        lines.push(line);
        assert(contents(lines@) =~= before + seq![rest]);
    } else {
        assert(lines_of(rest) =~= Seq::<Seq<u8>>::empty());
        assert(contents(lines@) + lines_of(rest) =~= contents(lines@));
    }
    lines
}

/// Puts lines together into the contents of a file: each line followed by
/// a single newline, and nothing else.
#[must_use]
pub fn join_lines(lines: &Vec<Vec<u8>>) -> (data: Vec<u8>)
    ensures
        data@ == text_of(contents(lines@)),
{
    let ghost all = contents(lines@);
    let mut data: Vec<u8> = Vec::new();
    let mut i: usize = 0;
    assert(all.skip(0) =~= all);
    while i < lines.len()
        invariant
            i <= lines.len(),
            all == contents(lines@),
            all.len() == lines@.len(),
            text_of(all) == data@ + text_of(all.skip(i as int)),
        decreases lines.len() - i,
    {
        let line = &lines[i];
        let ghost before = data@;
        let mut k: usize = 0;
        while k < line.len()
            invariant
                k <= line.len(),
                data@ == before + line@.subrange(0, k as int),
            decreases line.len() - k,
        {
            data.push(line[k]);
            assert(data@ =~= before + line@.subrange(0, k + 1));
            k += 1;
        }
        data.push(NEWLINE);
        proof {
            let rest = all.skip(i as int);
            assert(rest[0] == line@);
            assert(rest.drop_first() =~= all.skip(i + 1));
            assert(line@.subrange(0, line@.len() as int) =~= line@);
            assert(data@ =~= before + line@ + seq![NEWLINE]);
            assert(text_of(rest) == line@ + seq![NEWLINE] + text_of(all.skip(i + 1)));
            assert(text_of(all) =~= data@ + text_of(all.skip(i + 1)));
        }
        i += 1;
    }
    assert(text_of(all.skip(i as int)) =~= Seq::<u8>::empty());
    assert(data@ =~= text_of(all));
    data
}

} // verus!
