//! The front-matter splitter: a pass over the lines of a document that
//! counts `---` delimiter lines and sorts the other lines into a YAML
//! segment and a Markdown segment.

use crate::text::{is_delimiter, is_delimiter_line, strings_view};
use vstd::prelude::*;
use vstd::string::StringExecFns;

verus! {

/// The two segments of a document with front matter.
#[derive(Debug)]
pub struct FrontMatterSegments {
    /// The lines between the first and the second delimiter line.
    pub yaml_text: String,
    /// The lines between the second delimiter line and the third, or the end.
    pub markdown_text: String,
}

/// The lines joined into one text, each followed by a line feed.
pub open spec fn join_lines(lines: Seq<Seq<char>>) -> Seq<char>
    decreases lines.len(),
{
    if lines.len() == 0 {
        Seq::empty()
    } else {
        join_lines(lines.drop_last()) + lines.last() + seq!['\n']
    }
}

/// The number of delimiter lines among `lines`.
pub open spec fn delimiter_count(lines: Seq<Seq<char>>) -> nat
    decreases lines.len(),
{
    if lines.len() == 0 {
        0
    } else {
        delimiter_count(lines.drop_last()) + if is_delimiter_line(lines.last()) {
            1nat
        } else {
            0nat
        }
    }
}

/// Whether line `i` belongs to section `section`: it is no delimiter line and
/// exactly `section` delimiter lines stand before it.
pub open spec fn in_section(lines: Seq<Seq<char>>, i: int, section: nat) -> bool {
    &&& 0 <= i < lines.len()
    &&& !is_delimiter_line(lines[i])
    &&& delimiter_count(lines.take(i)) == section
}

/// The text of section `section`: its lines in order, each followed by a
/// line feed.
pub open spec fn section_text(lines: Seq<Seq<char>>, section: nat) -> Seq<char>
    decreases lines.len(),
{
    if lines.len() == 0 {
        Seq::empty()
    } else if in_section(lines, lines.len() - 1, section) {
        section_text(lines.drop_last(), section) + lines.last() + seq!['\n']
    } else {
        section_text(lines.drop_last(), section)
    }
}

/// The YAML segment: the lines after the first delimiter line and before the
/// second.
pub open spec fn yaml_segment(lines: Seq<Seq<char>>) -> Seq<char> {
    section_text(lines, 1)
}

/// The Markdown segment: the lines after the second delimiter line and before
/// a third.
pub open spec fn markdown_segment(lines: Seq<Seq<char>>) -> Seq<char> {
    section_text(lines, 2)
}

/// Splits the lines of a document into its YAML and Markdown segments.
///
/// Lines before the first delimiter line are dropped, and so are the
/// delimiter lines themselves. A document with fewer than two delimiter lines
/// has an empty Markdown segment.
pub fn split_front_matter(lines: &Vec<String>) -> (segments: FrontMatterSegments)
    ensures
        segments.yaml_text@ == yaml_segment(strings_view(lines@)),
        segments.markdown_text@ == markdown_segment(strings_view(lines@)),
{
    let ghost all = strings_view(lines@);
    let mut yaml_text = String::new();
    let mut markdown_text = String::new();
    let mut delimiters: usize = 0;
    let mut i: usize = 0;
    proof {
        reveal_strlit("\n");
    }
    while i < lines.len()
        invariant
            i <= lines.len(),
            all == strings_view(lines@),
            delimiters == delimiter_count(all.take(i as int)),
            delimiters <= i,
            yaml_text@ == section_text(all.take(i as int), 1),
            markdown_text@ == section_text(all.take(i as int), 2),
            "\n"@ == seq!['\n'],
        decreases lines.len() - i,
    {
        let line = lines[i].as_str();
        assert(all.take(i + 1).take(i as int) =~= all.take(i as int));
        if is_delimiter(line) {
            delimiters = delimiters + 1;
        } else if delimiters == 1 {
            yaml_text.append(line);
            yaml_text.append("\n");
        } else if delimiters == 2 {
            markdown_text.append(line);
            markdown_text.append("\n");
        }
        i = i + 1;
    }
    assert(all.take(i as int) =~= all);
    FrontMatterSegments { yaml_text, markdown_text }
}

/// Sections of a prefix of a document with exactly two delimiter lines, at
/// `first` and `second`.
proof fn lemma_two_delimiters_prefix(lines: Seq<Seq<char>>, first: int, second: int, n: int)
    requires
        0 <= first < second < lines.len(),
        0 <= n <= lines.len(),
        forall|i: int|
            0 <= i < lines.len() ==> (is_delimiter_line(#[trigger] lines[i]) <==> i == first || i
                == second),
    ensures
        delimiter_count(lines.take(n)) == if n <= first {
            0nat
        } else if n <= second {
            1nat
        } else {
            2nat
        },
        yaml_segment(lines.take(n)) == if n <= first {
            Seq::<char>::empty()
        } else if n <= second {
            join_lines(lines.subrange(first + 1, n))
        } else {
            join_lines(lines.subrange(first + 1, second))
        },
        markdown_segment(lines.take(n)) == if n <= second {
            Seq::<char>::empty()
        } else {
            join_lines(lines.subrange(second + 1, n))
        },
    decreases n,
{
    if n > 0 {
        lemma_two_delimiters_prefix(lines, first, second, n - 1);
        assert(lines.take(n).take(n - 1) =~= lines.take(n - 1));
        if first < n - 1 < second {
            assert(lines.subrange(first + 1, n).drop_last() =~= lines.subrange(first + 1, n - 1));
        } else if n - 1 > second {
            assert(lines.subrange(second + 1, n).drop_last() =~= lines.subrange(
                second + 1,
                n - 1,
            ));
        }
    }
}

/// With exactly two delimiter lines, the YAML segment is the lines strictly
/// between them and the Markdown segment is all the lines after the second,
/// both without the delimiter lines themselves.
pub proof fn law_two_delimiters(lines: Seq<Seq<char>>, first: int, second: int)
    requires
        0 <= first < second < lines.len(),
        forall|i: int|
            0 <= i < lines.len() ==> (is_delimiter_line(#[trigger] lines[i]) <==> i == first || i
                == second),
    ensures
        delimiter_count(lines) == 2,
        yaml_segment(lines) == join_lines(lines.subrange(first + 1, second)),
        markdown_segment(lines) == join_lines(lines.subrange(second + 1, lines.len() as int)),
{
    lemma_two_delimiters_prefix(lines, first, second, lines.len() as int);
    assert(lines.take(lines.len() as int) =~= lines);
}

/// The delimiter count never drops as lines are added.
proof fn lemma_delimiter_count_monotone(lines: Seq<Seq<char>>, n: int)
    requires
        0 <= n <= lines.len(),
    ensures
        delimiter_count(lines.take(n)) <= delimiter_count(lines),
    decreases lines.len(),
{
    if n == lines.len() {
        assert(lines.take(n) =~= lines);
    } else {
        lemma_delimiter_count_monotone(lines.drop_last(), n);
        assert(lines.drop_last().take(n) =~= lines.take(n));
    }
}

/// A section that the delimiter count never reaches is empty.
pub proof fn lemma_unreached_section_is_empty(lines: Seq<Seq<char>>, section: nat)
    requires
        delimiter_count(lines) < section,
    ensures
        section_text(lines, section) == Seq::<char>::empty(),
    decreases lines.len(),
{
    if lines.len() > 0 {
        lemma_delimiter_count_monotone(lines, lines.len() - 1);
        lemma_unreached_section_is_empty(lines.drop_last(), section);
    }
}

/// With no delimiter line or only one, the Markdown segment is empty.
pub proof fn law_fewer_than_two_delimiters(lines: Seq<Seq<char>>)
    requires
        delimiter_count(lines) <= 1,
    ensures
        markdown_segment(lines) == Seq::<char>::empty(),
{
    lemma_unreached_section_is_empty(lines, 2);
}

} // verus!
