//! The printer list: turning the text that the platform's printer registry
//! prints, one printer per line, into a list of names.

use vstd::prelude::*;
use crate::text::{chars_of, string_of, texts};

verus! {

/// White space as Unicode defines it (the property `White_Space`).
pub open spec fn is_blank(c: char) -> bool {
    let n = c as u32;
    ||| 0x09 <= n <= 0x0D
    ||| n == 0x20
    ||| n == 0x85
    ||| n == 0xA0
    ||| n == 0x1680
    ||| 0x2000 <= n <= 0x200A
    ||| n == 0x2028
    ||| n == 0x2029
    ||| n == 0x202F
    ||| n == 0x205F
    ||| n == 0x3000
}

/// `text` without the white space at its front and at its back.
pub open spec fn trimmed(text: Seq<char>) -> Seq<char>
    decreases text.len(),
{
    if text.len() > 0 && is_blank(text.first()) {
        trimmed(text.drop_first())
    } else if text.len() > 0 && is_blank(text.last()) {
        trimmed(text.drop_last())
    } else {
        text
    }
}

/// Where the first line of `text` ends: the place of its first line feed at
/// or after `from`, or the end of the text where there is none.
pub open spec fn line_end(text: Seq<char>, from: int) -> int
    decreases text.len() - from,
{
    if from < 0 || from >= text.len() {
        text.len() as int
    } else if text[from] == '\n' {
        from
    } else {
        line_end(text, from + 1)
    }
}

/// The lines of `text`: what stands between its line feeds, in order. A
/// text without a line feed is one line.
pub open spec fn lines(text: Seq<char>) -> Seq<Seq<char>>
    decreases text.len(),
{
    let end = line_end(text, 0);
    if end < 0 || end >= text.len() {
        seq![text]
    } else {
        seq![text.take(end)] + lines(text.skip(end + 1))
    }
}

/// The list `earlier` after one more line was read: the line's name, which
/// is the line trimmed, is added at the end unless it is empty or listed
/// already.
pub open spec fn with_line(earlier: Seq<Seq<char>>, line: Seq<char>) -> Seq<Seq<char>> {
    let name = trimmed(line);
    if name.len() == 0 || earlier.contains(name) {
        earlier
    } else {
        earlier.push(name)
    }
}

/// The names that a run of lines lists: each line's name in the order of
/// the lines, without the empty ones, each name once, where it first occurs.
pub open spec fn listed_names(lines: Seq<Seq<char>>) -> Seq<Seq<char>>
    decreases lines.len(),
{
    if lines.len() == 0 {
        seq![]
    } else {
        with_line(listed_names(lines.drop_last()), lines.last())
    }
}

/// The printers that the registry's output lists.
pub open spec fn printer_names(output: Seq<char>) -> Seq<Seq<char>> {
    listed_names(lines(output))
}

/// What is left after trimming has no white space at either end, and
/// trimming it again changes nothing.
pub proof fn lemma_trimmed_has_clean_ends(text: Seq<char>)
    ensures
        trimmed(text).len() <= text.len(),
        trimmed(text).len() > 0 ==> !is_blank(trimmed(text).first()) && !is_blank(
            trimmed(text).last(),
        ),
        trimmed(trimmed(text)) == trimmed(text),
    decreases text.len(),
{
    if text.len() > 0 && is_blank(text.first()) {
        lemma_trimmed_has_clean_ends(text.drop_first());
    } else if text.len() > 0 && is_blank(text.last()) {
        lemma_trimmed_has_clean_ends(text.drop_last());
    }
}

/// No name is listed twice.
pub proof fn lemma_names_are_distinct(lines: Seq<Seq<char>>)
    ensures
        forall|i: int, j: int|
            0 <= i < j < listed_names(lines).len() ==> listed_names(lines)[i] != listed_names(
                lines,
            )[j],
    decreases lines.len(),
{
    if lines.len() > 0 {
        lemma_names_are_distinct(lines.drop_last());
        let earlier = listed_names(lines.drop_last());
        let names = listed_names(lines);
        assert forall|i: int, j: int| 0 <= i < j < names.len() implies names[i] != names[j] by {
            if j < earlier.len() {
                assert(names[i] == earlier[i] && names[j] == earlier[j]);
            } else {
                assert(names == earlier.push(trimmed(lines.last())));
                assert(!earlier.contains(names[j]));
                assert(names[i] == earlier[i]);
            }
        }
    }
}

/// Every listed name is the name of a line, and is not empty.
pub proof fn lemma_names_come_from_lines(lines: Seq<Seq<char>>)
    ensures
        forall|i: int|
            0 <= i < listed_names(lines).len() ==> {
                &&& (#[trigger] listed_names(lines)[i]).len() > 0
                &&& exists|k: int|
                    0 <= k < lines.len() && listed_names(lines)[i] == trimmed(#[trigger] lines[k])
            },
    decreases lines.len(),
{
    if lines.len() > 0 {
        let earlier_lines = lines.drop_last();
        lemma_names_come_from_lines(earlier_lines);
        let earlier = listed_names(earlier_lines);
        let names = listed_names(lines);
        assert forall|i: int| 0 <= i < names.len() implies {
            &&& (#[trigger] names[i]).len() > 0
            &&& exists|k: int| 0 <= k < lines.len() && names[i] == trimmed(#[trigger] lines[k])
        } by {
            if i < earlier.len() {
                assert(names[i] == earlier[i]);
                let k = choose|k: int|
                    0 <= k < earlier_lines.len() && earlier[i] == trimmed(
                        #[trigger] earlier_lines[k],
                    );
                assert(lines[k] == earlier_lines[k]);
            } else {
                assert(names[i] == trimmed(lines[lines.len() - 1]));
            }
        }
    }
}

/// Every line with a name has its name listed.
pub proof fn lemma_every_name_is_listed(lines: Seq<Seq<char>>, k: int)
    requires
        0 <= k < lines.len(),
        trimmed(lines[k]).len() > 0,
    ensures
        listed_names(lines).contains(trimmed(lines[k])),
    decreases lines.len(),
{
    let earlier = listed_names(lines.drop_last());
    let names = listed_names(lines);
    if k < lines.len() - 1 {
        lemma_every_name_is_listed(lines.drop_last(), k);
        let at = choose|at: int| 0 <= at < earlier.len() && earlier[at] == trimmed(lines[k]);
        assert(names[at] == trimmed(lines[k]));
    } else if !earlier.contains(trimmed(lines[k])) {
        assert(names[names.len() - 1] == trimmed(lines[k]));
    }
}

/// The names keep the order of the lines: what the first `k` lines list is
/// the beginning of what all the lines list.
pub proof fn lemma_names_keep_order(lines: Seq<Seq<char>>, k: int)
    requires
        0 <= k <= lines.len(),
    ensures
        listed_names(lines.take(k)).is_prefix_of(listed_names(lines)),
    decreases lines.len(),
{
    if k == lines.len() {
        assert(lines.take(k) =~= lines);
    } else {
        lemma_names_keep_order(lines.drop_last(), k);
        assert(lines.drop_last().take(k) =~= lines.take(k));
    }
}

/// A registry that prints nothing lists no printer.
pub proof fn lemma_no_output_lists_nothing()
    ensures
        printer_names(Seq::empty()) == Seq::<Seq<char>>::empty(),
{
    let output = Seq::<char>::empty();
    let all = lines(output);
    assert(all =~= seq![output]);
    assert(all.drop_last().len() == 0);
    assert(listed_names(all.drop_last()) =~= Seq::<Seq<char>>::empty());
    assert(trimmed(all.last()).len() == 0);
    assert(listed_names(all) == with_line(listed_names(all.drop_last()), all.last()));
}

/// Whether `c` is white space.
pub fn is_blank_char(c: char) -> (blank: bool)
    ensures
        blank == is_blank(c),
{
    let n: u32 = c as u32;
    (0x09 <= n && n <= 0x0D) || n == 0x20 || n == 0x85 || n == 0xA0 || n == 0x1680 || (0x2000 <= n
        && n <= 0x200A) || n == 0x2028 || n == 0x2029 || n == 0x202F || n == 0x205F || n
        == 0x3000
}

/// A text whose blanks are all at its ends is trimmed by cutting there.
proof fn lemma_trimmed_is_cut(text: Seq<char>, from: int, to: int)
    requires
        0 <= from <= to <= text.len(),
        forall|i: int| 0 <= i < from ==> is_blank(#[trigger] text[i]),
        forall|i: int| to <= i < text.len() ==> is_blank(#[trigger] text[i]),
        from < to ==> !is_blank(text[from]) && !is_blank(text[to - 1]),
    ensures
        trimmed(text) == text.subrange(from, to),
    decreases text.len(),
{
    if text.len() > 0 && is_blank(text.first()) {
        let rest = text.drop_first();
        if from > 0 {
            lemma_trimmed_is_cut(rest, from - 1, to - 1);
            assert(rest.subrange(from - 1, to - 1) =~= text.subrange(from, to));
        } else {
            assert(from == to);
            lemma_trimmed_is_cut(rest, 0, 0);
            assert(rest.subrange(0, 0) =~= text.subrange(from, to));
        }
    } else if text.len() > 0 && is_blank(text.last()) {
        let rest = text.drop_last();
        assert(from == 0);
        assert(to < text.len());
        lemma_trimmed_is_cut(rest, from, to);
        assert(rest.subrange(from, to) =~= text.subrange(from, to));
    } else {
        if text.len() > 0 {
            assert(from == 0);
            assert(to == text.len());
        }
        assert(text.subrange(from, to) =~= text);
    }
}

/// The line that starts a text ends at the first line feed.
proof fn lemma_line_end_found(text: Seq<char>, from: int, end: int)
    requires
        0 <= from <= end <= text.len(),
        forall|k: int| from <= k < end ==> #[trigger] text[k] != '\n',
        end < text.len() ==> text[end] == '\n',
    ensures
        line_end(text, from) == end,
    decreases end - from,
{
    if from < end {
        lemma_line_end_found(text, from + 1, end);
    }
}

/// Cuts the white space off both ends of `chars[from..to]`.
fn trim_range(chars: &Vec<char>, from: usize, to: usize) -> (cut: (usize, usize))
    requires
        from <= to <= chars.len(),
    ensures
        from <= cut.0 <= cut.1 <= to,
        chars@.subrange(cut.0 as int, cut.1 as int) == trimmed(
            chars@.subrange(from as int, to as int),
        ),
{
    let mut first: usize = from;
    while first < to && is_blank_char(chars[first])
        invariant
            from <= first <= to <= chars.len(),
            forall|i: int| from <= i < first ==> is_blank(#[trigger] chars@[i]),
        decreases to - first,
    {
        first += 1;
    }
    let mut last: usize = to;
    while last > first && is_blank_char(chars[last - 1])
        invariant
            from <= first <= last <= to <= chars.len(),
            forall|i: int| last <= i < to ==> is_blank(#[trigger] chars@[i]),
        decreases last - first,
    {
        last -= 1;
    }
    proof {
        let line = chars@.subrange(from as int, to as int);
        assert forall|i: int| 0 <= i < first - from implies is_blank(#[trigger] line[i]) by {
            assert(line[i] == chars@[from + i]);
        }
        assert forall|i: int| last - from <= i < line.len() implies is_blank(
            #[trigger] line[i],
        ) by {
            assert(line[i] == chars@[from + i]);
        }
        lemma_trimmed_is_cut(line, first - from, last - from);
        assert(line.subrange(first - from, last - from) =~= chars@.subrange(
            first as int,
            last as int,
        ));
    }
    (first, last)
}

/// Whether `name` is among `names`.
fn is_listed(names: &Vec<String>, name: &String) -> (listed: bool)
    ensures
        listed == texts(names@).contains(name@),
{
    let mut i: usize = 0;
    while i < names.len()
        invariant
            i <= names.len(),
            forall|j: int| 0 <= j < i ==> texts(names@)[j] != name@,
        decreases names.len() - i,
    {
        assert(texts(names@)[i as int] == names@[i as int]@);
        if names[i] == *name {
            return true;
        }
        i += 1;
    }
    false
}

/// Reads the line `chars[from..to]` into the list.
fn read_line(chars: &Vec<char>, from: usize, to: usize, names: &mut Vec<String>)
    requires
        from <= to <= chars.len(),
    ensures
        texts(final(names)@) == with_line(
            texts(old(names)@),
            chars@.subrange(from as int, to as int),
        ),
{
    let (first, last) = trim_range(chars, from, to);
    if first < last {
        let name = string_of(chars, first, last);
        if !is_listed(names, &name) {
            names.push(name);
            assert(texts(names@) =~= texts(old(names)@).push(name@));
        }
    }
}

/// Reads the printer registry's output: one name per line. Each line is
/// trimmed of white space; empty lines are passed over; a name that was
/// listed before is not listed again. The names keep the order of the lines.
pub fn parse_printer_list(output: &str) -> (names: Vec<String>)
    ensures
        texts(names@) == printer_names(output@),
{
    let chars = chars_of(output);
    let mut names: Vec<String> = Vec::new();
    let mut start: usize = 0;
    let mut i: usize = 0;
    let ghost mut done: Seq<Seq<char>> = seq![];
    assert(chars@.skip(0) =~= chars@);
    assert(done + lines(chars@) =~= lines(chars@));
    assert(texts(names@) =~= listed_names(done));
    while i < chars.len()
        invariant
            start <= i <= chars.len(),
            forall|k: int| start <= k < i ==> #[trigger] chars@[k] != '\n',
            lines(chars@) == done + lines(chars@.skip(start as int)),
            texts(names@) == listed_names(done),
        decreases chars.len() - i,
    {
        if chars[i] == '\n' {
            read_line(&chars, start, i, &mut names);
            proof {
                let rest = chars@.skip(start as int);
                let line = chars@.subrange(start as int, i as int);
                lemma_line_end_found(rest, 0, i - start);
                assert(rest.take(i - start) =~= line);
                assert(rest.skip(i - start + 1) =~= chars@.skip(i + 1));
                assert(done.push(line).drop_last() =~= done);
                assert(done + (seq![line] + lines(chars@.skip(i + 1))) =~= done.push(line) + lines(
                    chars@.skip(i + 1),
                ));
                done = done.push(line);
            }
            start = i + 1;
        }
        i += 1;
    }
    read_line(&chars, start, i, &mut names);
    proof {
        let rest = chars@.skip(start as int);
        lemma_line_end_found(rest, 0, rest.len() as int);
        assert(chars@.subrange(start as int, i as int) =~= rest);
        assert(done + seq![rest] =~= done.push(rest));
        assert(done.push(rest).drop_last() =~= done);
    }
    names
}

} // verus!
