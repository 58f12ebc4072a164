//! The part of Markdown that the descriptions of the API are written in.

use crate::text::{
    add_line, all_in, begins_with, ends_with, find_from, find_last, finishes_with, first_in,
    holds_char, join, joined, last_of, law_last_place, law_split_first, lemma_first_in, lower,
    no_lines, only, range_of, same, same_ignoring_case, same_letters, split, split_text,
    starts_with, texts, to_chars, trim, trimmed, CharClass,
};
use vstd::prelude::*;
use vstd::string::*;

verus! {

/// The place of the first `](`, or the length of the text.
pub open spec fn link_middle(s: Seq<char>) -> int
    decreases s.len(),
{
    if s.len() < 2 {
        s.len() as int
    } else if s[0] == ']' && s[1] == '(' {
        0
    } else {
        1 + link_middle(s.drop_first())
    }
}

/// A text with the label alone for each link `[label](target)`. What only
/// looks like a link stays.
pub open spec fn without_links(s: Seq<char>) -> Seq<char>
    decreases s.len(),
{
    let m = link_middle(s);
    if m < 0 || m + 2 > s.len() {
        s
    } else {
        let open = last_of(s.take(m), '[');
        let rest = s.skip(m + 2);
        let close = first_in(rest, CharClass::Is(')'));
        if open < 0 || close < 0 || close >= rest.len() {
            s.take(m + 2) + without_links(rest)
        } else {
            s.take(open) + s.subrange(open + 1, m) + without_links(rest.skip(close + 1))
        }
    }
}

proof fn lemma_link_middle(s: Seq<char>, i: int)
    requires
        0 <= i <= s.len(),
        forall|j: int| 0 <= j < i ==> !(#[trigger] s[j] == ']' && j + 1 < s.len() && s[j + 1] == '('),
        i + 1 < s.len() ==> s[i] == ']' && s[i + 1] == '(',
        i + 1 >= s.len() ==> i == s.len(),
    ensures
        link_middle(s) == i,
    decreases s.len(),
{
    if s.len() >= 2 && i > 0 {
        let rest = s.drop_first();
        assert(s[0] == s[0]);
        assert forall|j: int| 0 <= j < i - 1 implies !(#[trigger] rest[j] == ']' && j + 1 < rest.len()
            && rest[j + 1] == '(') by {
            assert(rest[j] == s[j + 1]);
        }
        lemma_link_middle(rest, i - 1);
    }
}

fn find_middle(chars: &[char], from: usize) -> (r: usize)
    requires
        from <= chars@.len(),
    ensures
        r == from + link_middle(chars@.skip(from as int)),
        from <= r <= chars@.len(),
        r < chars@.len() ==> r + 2 <= chars@.len(),
{
    let ghost rest = chars@.skip(from as int);
    let mut i: usize = from;
    while i < chars.len()
        invariant
            from <= i <= chars@.len(),
            rest == chars@.skip(from as int),
            forall|j: int|
                0 <= j < i - from ==> !(#[trigger] rest[j] == ']' && j + 1 < rest.len() && rest[j + 1]
                    == '('),
        decreases chars@.len() - i,
    {
        if chars[i] == ']' && chars.len() - i >= 2 && chars[i + 1] == '(' {
            assert(rest[i - from] == ']');
            proof {
                lemma_link_middle(rest, i - from);
            }
            return i;
        }
        i = i + 1;
    }
    proof {
        lemma_link_middle(rest, i - from);
    }
    i
}

/// The text with the label alone for each link. The targets lead somewhere
/// only on the pages that the text was written for.
pub fn strip_markdown_link(cell: &str) -> (r: String)
    ensures
        r@ == without_links(cell@),
{
    let chars = to_chars(cell);
    let ghost all = chars@;
    let mut out: String = String::new();
    let mut from: usize = 0;
    assert(all.skip(0) =~= all);
    assert(out@ + without_links(all) =~= without_links(all));
    let mut m: usize = find_middle(chars.as_slice(), 0);
    while m < chars.len()
        invariant
            chars@ == all,
            all == cell@,
            from <= m <= all.len(),
            m < all.len() ==> m + 2 <= all.len(),
            m == from + link_middle(all.skip(from as int)),
            without_links(all) == out@ + without_links(all.skip(from as int)),
        decreases all.len() - from,
    {
        let ghost rest = all.skip(from as int);
        let url: usize = m + 2;
        let ghost behind = rest.skip(m - from + 2);
        assert(behind =~= all.skip(url as int));
        let open = find_last(chars.as_slice(), from, m, '[');
        assert(all.subrange(from as int, m as int) =~= rest.take(m - from));
        let close: usize = find_from(chars.as_slice(), url, CharClass::Is(')'));
        proof {
            lemma_first_in(behind, CharClass::Is(')'));
        }
        match open {
            Some(open) if close < chars.len() => {
                let before = range_of(chars.as_slice(), from, from + open);
                let label = range_of(chars.as_slice(), from + open + 1, m);
                assert(before@ =~= rest.take(open as int));
                assert(label@ =~= rest.subrange(open + 1, m - from));
                assert(behind.skip(close - url + 1) =~= all.skip(close + 1));
                proof {
                    let x = without_links(all.skip(close + 1));
                    assert(out@ + (before@ + label@ + x) =~= out@ + before@ + label@ + x);
                }
                out = out.concat(before.as_str()).concat(label.as_str());
                from = close + 1;
            },
            _ => {
                let kept = range_of(chars.as_slice(), from, url);
                assert(kept@ =~= rest.take(m - from + 2));
                proof {
                    let x = without_links(behind);
                    assert(out@ + (kept@ + x) =~= out@ + kept@ + x);
                }
                out = out.concat(kept.as_str());
                from = url;
            },
        }
        m = find_middle(chars.as_slice(), from);
    }
    let tail = range_of(chars.as_slice(), from, chars.len());
    assert(tail@ =~= all.skip(from as int));
    out.concat(tail.as_str())
}

/// A text without links stays as it is.
pub proof fn law_plain_text_stays(s: Seq<char>)
    requires
        forall|i: int| 0 <= i < s.len() - 1 ==> !(#[trigger] s[i] == ']' && s[i + 1] == '('),
    ensures
        without_links(s) == s,
{
    lemma_link_middle(s, s.len() as int);
}

/// The row of a table that separates its head: every cell is empty or made of
/// hyphens and colons, a hyphen at least.
pub open spec fn separates(row: Seq<char>) -> bool {
    let inner = trim(row, CharClass::PipeOrSpace);
    inner.len() > 0 && forall|i: int|
        0 <= i < split(inner, '|').len() ==> rule_cell(#[trigger] split(inner, '|')[i])
}

pub open spec fn rule_cell(cell: Seq<char>) -> bool {
    let c = trim(cell, CharClass::White);
    c.len() == 0 || (c.contains('-') && all_in(c, CharClass::TableRule))
}

/// Whether a row of a table is the one that separates its head.
pub fn is_separator_row(row: &str) -> (r: bool)
    ensures
        r == separates(row@),
{
    let inner = trimmed(row, CharClass::PipeOrSpace);
    if inner.as_str().unicode_len() == 0 {
        return false;
    }
    let cells = split_text(inner.as_str(), '|');
    let mut i: usize = 0;
    while i < cells.len()
        invariant
            i <= cells@.len(),
            inner@ == trim(row@, CharClass::PipeOrSpace),
            texts(cells@) == split(inner@, '|'),
            forall|j: int| 0 <= j < i ==> rule_cell(#[trigger] split(inner@, '|')[j]),
        decreases cells@.len() - i,
    {
        assert(texts(cells@)[i as int] == cells@[i as int]@);
        let cell = trimmed(cells[i].as_str(), CharClass::White);
        let c = cell.as_str();
        if !(c.unicode_len() == 0 || (holds_char(c, '-') && only(c, CharClass::TableRule))) {
            assert(!rule_cell(split(inner@, '|')[i as int]));
            return false;
        }
        i = i + 1;
    }
    assert(texts(cells@).len() == cells@.len());
    true
}

/// The table whose rows are being collected, if any.
#[derive(Clone, Copy, Debug, PartialEq, Eq, Structural)]
pub enum Capturing {
    Off,
    Filters,
    Sortable,
}

/// The table that a head with these cells begins, if it is one that is
/// collected.
pub open spec fn collected_table(cells: Seq<Seq<char>>) -> Option<Capturing> {
    if cells.len() == 1 && same_letters(cells[0], "filters"@) {
        Some(Capturing::Filters)
    } else if cells.len() == 1 && same_letters(cells[0], "sortable fields"@) {
        Some(Capturing::Sortable)
    } else {
        None
    }
}

/// The table that a head with these cells begins, if it is one that is
/// collected.
pub fn special_table_header(cells: &[String]) -> (r: Option<Capturing>)
    ensures
        r == collected_table(texts(cells@)),
{
    if cells.len() != 1 {
        return None;
    }
    assert(texts(cells@)[0] == cells@[0]@);
    if same_ignoring_case(cells[0].as_str(), "filters") {
        Some(Capturing::Filters)
    } else if same_ignoring_case(cells[0].as_str(), "sortable fields") {
        Some(Capturing::Sortable)
    } else {
        None
    }
}

/// The cells among `parts` that hold something, without links and the space
/// around them.
pub open spec fn full_cells(parts: Seq<Seq<char>>) -> Seq<Seq<char>>
    decreases parts.len(),
{
    if parts.len() == 0 {
        Seq::empty()
    } else {
        let rest = full_cells(parts.drop_last());
        let cell = without_links(trim(parts.last(), CharClass::White));
        if cell.len() > 0 {
            rest.push(cell)
        } else {
            rest
        }
    }
}

/// The cells of a row.
pub open spec fn cells_of(row: Seq<char>) -> Seq<Seq<char>> {
    full_cells(split(trim(row, CharClass::PipeOrSpace), '|'))
}

fn read_cells(row: &str) -> (r: Vec<String>)
    ensures
        texts(r@) == cells_of(row@),
{
    let inner = trimmed(row, CharClass::PipeOrSpace);
    let parts = split_text(inner.as_str(), '|');
    let ghost all = texts(parts@);
    let mut out = no_lines();
    let mut i: usize = 0;
    while i < parts.len()
        invariant
            i <= parts@.len(),
            all == texts(parts@),
            texts(out@) == full_cells(all.take(i as int)),
        decreases parts@.len() - i,
    {
        assert(all.take(i + 1).drop_last() =~= all.take(i as int));
        let cell = strip_markdown_link(trimmed(parts[i].as_str(), CharClass::White).as_str());
        if cell.as_str().unicode_len() > 0 {
            add_line(&mut out, cell);
        }
        i = i + 1;
    }
    assert(all.take(i as int) =~= all);
    out
}

/// What a description says: the lines to show, and the names in its two
/// collected tables.
pub struct TagDescription {
    pub lines: Vec<String>,
    pub filters: Vec<String>,
    pub sortable: Vec<String>,
}

pub struct DescriptionView {
    pub lines: Seq<Seq<char>>,
    pub filters: Seq<Seq<char>>,
    pub sortable: Seq<Seq<char>>,
    pub capturing: Capturing,
}

/// What a row of a table, whose cells are not all empty, adds.
pub open spec fn with_row(d: DescriptionView, row: Seq<char>, cells: Seq<Seq<char>>) -> DescriptionView {
    match collected_table(cells) {
        Some(next) => DescriptionView { capturing: next, ..d },
        None => if d.capturing is Off {
            DescriptionView { lines: d.lines.push(join(cells, " | "@)), ..d }
        } else if !all_in(cells[0], CharClass::Identifier) {
            DescriptionView {
                lines: d.lines.push(without_links(trim(row, CharClass::PipeOrSpace))),
                capturing: Capturing::Off,
                ..d
            }
        } else if d.capturing is Filters {
            DescriptionView { filters: d.filters.push(cells[0]), ..d }
        } else {
            DescriptionView { sortable: d.sortable.push(cells[0]), ..d }
        },
    }
}

/// What a line adds. A line is a row where it begins with a bar, or, inside a
/// collected table, where it ends with one.
pub open spec fn with_line(d: DescriptionView, line: Seq<char>) -> DescriptionView {
    let row = trim(line, CharClass::White);
    if !(starts_with(row, "|"@) || (!(d.capturing is Off) && ends_with(row, "|"@))) {
        DescriptionView {
            lines: if row.len() > 0 {
                d.lines.push(without_links(row))
            } else {
                d.lines
            },
            capturing: Capturing::Off,
            ..d
        }
    } else if separates(row) || cells_of(row).len() == 0 {
        d
    } else {
        with_row(d, row, cells_of(row))
    }
}

pub open spec fn described(lines: Seq<Seq<char>>) -> DescriptionView
    decreases lines.len(),
{
    if lines.len() == 0 {
        DescriptionView {
            lines: Seq::empty(),
            filters: Seq::empty(),
            sortable: Seq::empty(),
            capturing: Capturing::Off,
        }
    } else {
        with_line(described(lines.drop_last()), lines.last())
    }
}

/// The lines that are shown of a description: an empty one behind them, where
/// there are any.
pub open spec fn shown(lines: Seq<Seq<char>>) -> Seq<Seq<char>> {
    if lines.len() > 0 {
        lines.push(""@)
    } else {
        lines
    }
}

pub open spec fn describes(d: TagDescription, capturing: Capturing) -> DescriptionView {
    DescriptionView {
        lines: texts(d.lines@),
        filters: texts(d.filters@),
        sortable: texts(d.sortable@),
        capturing,
    }
}

fn add_row(d: &mut TagDescription, capturing: Capturing, row: &str, cells: &Vec<String>) -> (r: Capturing)
    requires
        cells@.len() > 0,
    ensures
        describes(*final(d), r) == with_row(
            describes(*old(d), capturing),
            row@,
            texts(cells@),
        ),
{
    if let Some(next) = special_table_header(cells.as_slice()) {
        return next;
    }
    assert(texts(cells@)[0] == cells@[0]@);
    if capturing == Capturing::Off {
        add_line(&mut d.lines, joined(cells.as_slice(), " | "));
        return Capturing::Off;
    }
    if !only(cells[0].as_str(), CharClass::Identifier) {
        add_line(
            &mut d.lines,
            strip_markdown_link(trimmed(row, CharClass::PipeOrSpace).as_str()),
        );
        return Capturing::Off;
    }
    if capturing == Capturing::Filters {
        add_line(&mut d.filters, cells[0].clone());
    } else {
        add_line(&mut d.sortable, cells[0].clone());
    }
    capturing
}

/// Reads a description: its prose and its tables are shown, but the rows of
/// the tables of filters and of sortable fields are collected.
pub fn render_tag_description(text: &str) -> (r: TagDescription)
    ensures
        ({
            let d = described(split(text@, '\n'));
            &&& texts(r.lines@) == shown(d.lines)
            &&& texts(r.filters@) == d.filters
            &&& texts(r.sortable@) == d.sortable
        }),
{
    let lines = split_text(text, '\n');
    let ghost all = texts(lines@);
    let mut d = TagDescription { lines: no_lines(), filters: no_lines(), sortable: no_lines() };
    let mut capturing = Capturing::Off;
    let mut i: usize = 0;
    while i < lines.len()
        invariant
            i <= lines@.len(),
            all == texts(lines@),
            describes(d, capturing) == described(all.take(i as int)),
        decreases lines@.len() - i,
    {
        assert(all.take(i + 1).drop_last() =~= all.take(i as int));
        assert(all[i as int] == lines@[i as int]@);
        let row = trimmed(lines[i].as_str(), CharClass::White);
        if !(begins_with(row.as_str(), "|") || (capturing != Capturing::Off && finishes_with(
            row.as_str(),
            "|",
        ))) {
            capturing = Capturing::Off;
            if row.as_str().unicode_len() > 0 {
                add_line(&mut d.lines, strip_markdown_link(row.as_str()));
            }
        } else if !is_separator_row(row.as_str()) {
            let cells = read_cells(row.as_str());
            assert(texts(cells@).len() == cells@.len());
            if cells.len() > 0 {
                capturing = add_row(&mut d, capturing, row.as_str(), &cells);
            }
        }
        i = i + 1;
    }
    assert(all.take(i as int) =~= all);
    assert(texts(d.lines@).len() == d.lines@.len());
    if d.lines.len() > 0 {
        add_line(&mut d.lines, "".to_owned());
    }
    d
}

/// A line of three or more of the same character.
pub open spec fn is_rule(l: Seq<char>, c: char) -> bool {
    l.len() >= 3 && all_in(l, CharClass::Is(c))
}

/// A line that begins with a number of a list.
pub open spec fn is_numbered(l: Seq<char>) -> bool {
    let i = first_in(l, CharClass::NotDigit);
    0 < i < l.len() && (starts_with(l.skip(i), ". "@) || starts_with(l.skip(i), ") "@))
}

/// A line of plain prose.
pub open spec fn is_prose(l: Seq<char>) -> bool {
    &&& l.len() > 0
    &&& !starts_with(l, "|"@)
    &&& !starts_with(l, "#"@)
    &&& !starts_with(l, "```"@)
    &&& !is_rule(l, '-')
    &&& !is_rule(l, '=')
    &&& !is_rule(l, '*')
    &&& !starts_with(l, ">"@)
    &&& !starts_with(l, "- "@)
    &&& !starts_with(l, "* "@)
    &&& !starts_with(l, "+ "@)
    &&& l != "-"@
    &&& l != "*"@
    &&& l != "+"@
    &&& !is_numbered(l)
}

/// The first line of prose, or nothing.
pub open spec fn prose_in(lines: Seq<Seq<char>>) -> Seq<char>
    decreases lines.len(),
{
    if lines.len() == 0 {
        Seq::empty()
    } else if is_prose(trim(lines[0], CharClass::White)) {
        trim(lines[0], CharClass::White)
    } else {
        prose_in(lines.drop_first())
    }
}

/// Whether a line begins with a number of a list: digits, a dot or a bracket,
/// and a space.
pub fn is_ordered_list_marker(l: &str) -> (r: bool)
    ensures
        r == is_numbered(l@),
{
    let chars = to_chars(l);
    assert(chars@.skip(0) =~= chars@);
    let i: usize = find_from(chars.as_slice(), 0, CharClass::NotDigit);
    if i == 0 || i == chars.len() {
        return false;
    }
    let rest = range_of(chars.as_slice(), i, chars.len());
    assert(rest@ =~= l@.skip(i as int));
    begins_with(rest.as_str(), ". ") || begins_with(rest.as_str(), ") ")
}

fn is_rule_line(l: &str, c: char) -> (r: bool)
    ensures
        r == is_rule(l@, c),
{
    l.unicode_len() >= 3 && only(l, CharClass::Is(c))
}

fn is_prose_line(l: &str) -> (r: bool)
    ensures
        r == is_prose(l@),
{
    l.unicode_len() > 0 && !begins_with(l, "|") && !begins_with(l, "#") && !begins_with(l, "```")
        && !is_rule_line(l, '-') && !is_rule_line(l, '=') && !is_rule_line(l, '*')
        && !begins_with(l, ">") && !begins_with(l, "- ") && !begins_with(l, "* ") && !begins_with(
        l,
        "+ ",
    ) && !same(l, "-") && !same(l, "*") && !same(l, "+") && !is_ordered_list_marker(l)
}

/// The first line of prose in a description, without the space around it;
/// tables, headings, rules, quotes and lists are passed over.
pub fn first_prose_line(text: &str) -> (r: String)
    ensures
        r@ == prose_in(split(text@, '\n')),
{
    let lines = split_text(text, '\n');
    let ghost all = texts(lines@);
    let mut i: usize = 0;
    assert(all.skip(0) =~= all);
    while i < lines.len()
        invariant
            i <= lines@.len(),
            all == texts(lines@),
            all == split(text@, '\n'),
            prose_in(all) == prose_in(all.skip(i as int)),
        decreases lines@.len() - i,
    {
        assert(all.skip(i as int)[0] == lines@[i as int]@);
        assert(all.skip(i as int).drop_first() =~= all.skip(i + 1));
        let line = trimmed(lines[i].as_str(), CharClass::White);
        if is_prose_line(line.as_str()) {
            return line;
        }
        i = i + 1;
    }
    String::new()
}

/// The rows of a table are collected only under the head of that table: prose
/// alone collects nothing.
pub proof fn law_prose_collects_nothing(lines: Seq<Seq<char>>)
    requires
        forall|i: int|
            0 <= i < lines.len() ==> !starts_with(
                trim(#[trigger] lines[i], CharClass::White),
                "|"@,
            ),
    ensures
        described(lines).filters.len() == 0,
        described(lines).sortable.len() == 0,
        described(lines).capturing is Off,
    decreases lines.len(),
{
    if lines.len() > 0 {
        law_prose_collects_nothing(lines.drop_last());
        assert(lines.last() == lines[lines.len() - 1]);
    }
}

/// A link is its label; what stands before it stays, and what follows is read
/// on.
pub proof fn law_links_become_labels(
    before: Seq<char>,
    label: Seq<char>,
    target: Seq<char>,
    after: Seq<char>,
)
    requires
        !before.contains(']'),
        !label.contains(']'),
        !label.contains('['),
        !target.contains(')'),
    ensures
        without_links(before + seq!['['] + label + seq![']', '('] + target + seq![')'] + after)
            == before + label + without_links(after),
{
    let lead = before + seq!['['] + label;
    let s = lead + seq![']', '('] + target + seq![')'] + after;
    let n = lead.len() as int;
    assert forall|i: int| 0 <= i < n implies #[trigger] s[i] != ']' by {
        if i < before.len() {
            assert(s[i] == before[i]);
            assert(before.contains(before[i]));
        } else if i > before.len() {
            assert(s[i] == label[i - before.len() - 1]);
            assert(label.contains(label[i - before.len() - 1]));
        }
    }
    assert(s[n] == ']' && s[n + 1] == '(');
    lemma_middle_at(s, n);
    let head = s.take(n);
    assert(head =~= lead);
    law_last_place(head, '[');
    let open = last_of(head, '[');
    assert(head[before.len() as int] == '[');
    if open > before.len() {
        assert(head[open] == label[open - before.len() - 1]);
        assert(label.contains(label[open - before.len() - 1]));
    }
    assert(open == before.len());
    let rest = s.skip(n + 2);
    assert(rest =~= target + seq![')'] + after);
    lemma_first_in(rest, CharClass::Is(')'));
    let close = first_in(rest, CharClass::Is(')'));
    assert(rest[target.len() as int] == ')');
    if close < target.len() {
        assert(rest[close] == target[close]);
        assert(target.contains(target[close]));
    }
    if close > target.len() {
        assert(!CharClass::Is(')').holds(rest[target.len() as int]));
    }
    assert(rest.skip(close + 1) =~= after);
    assert(s.take(open) =~= before);
    assert(s.subrange(open + 1, n) =~= label);
}

proof fn lemma_middle_at(s: Seq<char>, n: int)
    requires
        0 <= n,
        n + 2 <= s.len(),
        s[n] == ']',
        s[n + 1] == '(',
        forall|i: int| 0 <= i < n ==> #[trigger] s[i] != ']',
    ensures
        link_middle(s) == n,
    decreases n,
{
    if n > 0 {
        assert(s[0] != ']');
        let rest = s.drop_first();
        assert forall|i: int| 0 <= i < n - 1 implies #[trigger] rest[i] != ']' by {
            assert(rest[i] == s[i + 1]);
        }
        lemma_middle_at(rest, n - 1);
    }
}

/// A cell of the row that separates the head of a table is blank, or is made of
/// hyphens and colons with a hyphen at least.
pub proof fn law_rule_cells(cell: Seq<char>)
    ensures
        ({
            let c = trim(cell, CharClass::White);
            rule_cell(cell) <==> c.len() == 0 || (c.contains('-') && forall|i: int|
                0 <= i < c.len() ==> #[trigger] c[i] == '-' || c[i] == ':')
        }),
{
    let c = trim(cell, CharClass::White);
    if all_in(c, CharClass::TableRule) {
        assert forall|i: int| 0 <= i < c.len() implies #[trigger] c[i] == '-' || c[i] == ':' by {
            assert(CharClass::TableRule.holds(c[i]));
        }
    }
}

/// A row separates where all its cells do and there is something in it.
pub proof fn law_separating_rows(row: Seq<char>, i: int)
    ensures
        separates(row) ==> trim(row, CharClass::PipeOrSpace).len() > 0,
        separates(row) && 0 <= i < split(trim(row, CharClass::PipeOrSpace), '|').len() ==> rule_cell(
            split(trim(row, CharClass::PipeOrSpace), '|')[i],
        ),
        trim(row, CharClass::PipeOrSpace).len() > 0 && !trim(row, CharClass::PipeOrSpace).contains(
            '|',
        ) && rule_cell(trim(row, CharClass::PipeOrSpace)) ==> separates(row),
{
    let inner = trim(row, CharClass::PipeOrSpace);
    if !inner.contains('|') {
        law_split_first(inner, '|', inner);
        assert(split(inner, '|') =~= seq![inner]);
    }
}

/// The tables that are collected, by their heads, whatever the case.
pub proof fn law_collected_tables(head: Seq<char>, more: Seq<Seq<char>>)
    ensures
        lower(head) == lower("filters"@) ==> collected_table(seq![head]) == Some(
            Capturing::Filters,
        ),
        lower(head) == lower("sortable fields"@) ==> collected_table(seq![head]) == Some(
            Capturing::Sortable,
        ),
        lower(head) != lower("filters"@) && lower(head) != lower("sortable fields"@)
            ==> collected_table(seq![head]) is None,
        more.len() != 1 ==> collected_table(more) is None,
{
    reveal_strlit("filters");
    reveal_strlit("sortable fields");
    assert("filters"@.len() != "sortable fields"@.len());
    assert(lower("filters"@).len() != lower("sortable fields"@).len());
}

/// The cells of a row are what stands between its bars, without links and the
/// space around, and those that then hold nothing are left out.
pub proof fn law_cells(parts: Seq<Seq<char>>, part: Seq<char>)
    ensures
        ({
            let cell = without_links(trim(part, CharClass::White));
            &&& cell.len() > 0 ==> full_cells(parts.push(part)) == full_cells(parts).push(cell)
            &&& cell.len() == 0 ==> full_cells(parts.push(part)) == full_cells(parts)
        }),
        full_cells(Seq::empty()).len() == 0,
{
    assert(parts.push(part).drop_last() =~= parts);
}

/// Each line of a description adds what it is: prose and rows of a table are
/// shown, the rows under the head of a collected table add their name to it,
/// and heads and separating rows add nothing.
pub proof fn law_each_line(lines: Seq<Seq<char>>, line: Seq<char>)
    ensures
        ({
            let d = described(lines);
            let n = described(lines.push(line));
            let row = trim(line, CharClass::White);
            let cells = cells_of(row);
            let inside = d.capturing is Filters || d.capturing is Sortable;
            let is_row = starts_with(row, "|"@) || (inside && ends_with(row, "|"@));
            let same_names = n.filters == d.filters && n.sortable == d.sortable;
            if !is_row {
                &&& same_names && n.capturing is Off
                &&& row.len() == 0 ==> n.lines == d.lines
                &&& row.len() > 0 ==> n.lines == d.lines.push(without_links(row))
            } else if separates(row) || cells.len() == 0 {
                n == d
            } else if collected_table(cells) is Some {
                same_names && n.lines == d.lines && n.capturing == collected_table(cells)->0
            } else if !inside {
                same_names && n.lines == d.lines.push(join(cells, " | "@)) && n.capturing is Off
            } else if forall|i: int|
                0 <= i < cells[0].len() ==> CharClass::Identifier.holds(#[trigger] cells[0][i]) {
                &&& n.lines == d.lines && n.capturing == d.capturing
                &&& d.capturing is Filters ==> n.filters == d.filters.push(cells[0]) && n.sortable
                    == d.sortable
                &&& d.capturing is Sortable ==> n.sortable == d.sortable.push(cells[0]) && n.filters
                    == d.filters
            } else {
                same_names && n.capturing is Off && n.lines == d.lines.push(
                    without_links(trim(row, CharClass::PipeOrSpace)),
                )
            }
        }),
        described(Seq::empty()).lines.len() == 0,
        described(Seq::empty()).filters.len() == 0,
        described(Seq::empty()).sortable.len() == 0,
        described(Seq::empty()).capturing is Off,
{
    assert(lines.push(line).drop_last() =~= lines);
}

/// What is shown of a description is all of its lines, with an empty one behind
/// them where there are any.
pub proof fn law_lines_are_shown(lines: Seq<Seq<char>>)
    ensures
        lines.len() == 0 ==> shown(lines).len() == 0,
        lines.len() > 0 ==> shown(lines) == lines.push(Seq::empty()),
{
    reveal_strlit("");
    assert(""@ =~= Seq::<char>::empty());
}

/// The first line of prose is taken, and nothing where there is none.
pub proof fn law_first_prose_counts(lines: Seq<Seq<char>>, at: int)
    requires
        0 <= at <= lines.len(),
        at < lines.len() ==> is_prose(trim(lines[at], CharClass::White)),
        forall|i: int|
            0 <= i < at ==> !is_prose(trim(#[trigger] lines[i], CharClass::White)),
    ensures
        at < lines.len() ==> prose_in(lines) == trim(lines[at], CharClass::White),
        at == lines.len() ==> prose_in(lines).len() == 0,
    decreases lines.len(),
{
    if lines.len() > 0 && at > 0 {
        let rest = lines.drop_first();
        assert(!is_prose(trim(lines[0], CharClass::White)));
        assert forall|i: int| 0 <= i < at - 1 implies !is_prose(
            trim(#[trigger] rest[i], CharClass::White),
        ) by {
            assert(rest[i] == lines[i + 1]);
        }
        if at < lines.len() {
            assert(rest[at - 1] == lines[at]);
        }
        law_first_prose_counts(rest, at - 1);
    }
}

/// Numbers of a list are digits, a dot or a bracket, and a space.
pub proof fn law_numbered_lines(digits: Seq<char>, rest: Seq<char>, l: Seq<char>)
    ensures
        digits.len() > 0 && all_in(digits, CharClass::Digit) ==> is_numbered(digits + ". "@ + rest)
            && is_numbered(digits + ") "@ + rest),
        is_numbered(l) ==> l.len() > 0 && CharClass::Digit.holds(l[0]),
{
    let k = CharClass::NotDigit;
    lemma_first_in(l, k);
    reveal_strlit(". ");
    reveal_strlit(") ");
    if digits.len() > 0 && all_in(digits, CharClass::Digit) {
        let a = digits + ". "@ + rest;
        let b = digits + ") "@ + rest;
        lemma_first_in(a, k);
        lemma_first_in(b, k);
        assert(a[digits.len() as int] == '.');
        assert(b[digits.len() as int] == ')');
        let i = first_in(a, k);
        let j = first_in(b, k);
        if i < digits.len() {
            assert(a[i] == digits[i]);
            assert(CharClass::Digit.holds(digits[i]));
        }
        if i > digits.len() {
            assert(!k.holds(a[digits.len() as int]));
        }
        if j < digits.len() {
            assert(b[j] == digits[j]);
            assert(CharClass::Digit.holds(digits[j]));
        }
        if j > digits.len() {
            assert(!k.holds(b[digits.len() as int]));
        }
        assert(a.skip(i).take(2) =~= ". "@);
        assert(b.skip(j).take(2) =~= ") "@);
    }
    if is_numbered(l) {
        assert(!k.holds(l[0]));
    }
}

/// Tables, headings, fences, rules, quotes and lists are no prose; a line that
/// begins with a letter is.
pub proof fn law_what_prose_is(l: Seq<char>)
    ensures
        starts_with(l, "|"@) || starts_with(l, "#"@) || starts_with(l, "```"@) || starts_with(
            l,
            ">"@,
        ) || starts_with(l, "- "@) || starts_with(l, "* "@) || starts_with(l, "+ "@) || l == "-"@
            || l == "*"@ || l == "+"@ || is_numbered(l) || l.len() == 0 ==> !is_prose(l),
        l.len() >= 3 && ((forall|i: int| 0 <= i < l.len() ==> #[trigger] l[i] == '-') || (forall|
            i: int,
        | 0 <= i < l.len() ==> #[trigger] l[i] == '=') || (forall|i: int|
            0 <= i < l.len() ==> #[trigger] l[i] == '*')) ==> !is_prose(l),
        l.len() > 0 && (97 <= l[0] as int <= 122 || 65 <= l[0] as int <= 90) ==> is_prose(l),
{
    reveal_strlit("|");
    reveal_strlit("#");
    reveal_strlit("```");
    reveal_strlit(">");
    reveal_strlit("- ");
    reveal_strlit("* ");
    reveal_strlit("+ ");
    reveal_strlit("-");
    reveal_strlit("*");
    reveal_strlit("+");
    if l.len() > 0 && (97 <= l[0] as int <= 122 || 65 <= l[0] as int <= 90) {
        law_numbered_lines(Seq::empty(), Seq::empty(), l);
        assert forall|p: Seq<char>| p.len() > 0 && #[trigger] starts_with(l, p) implies p[0]
            == l[0] by {
            assert(l.take(p.len() as int)[0] == l[0]);
        }
        assert(!CharClass::Is('-').holds(l[0]));
        assert(!CharClass::Is('=').holds(l[0]));
        assert(!CharClass::Is('*').holds(l[0]));
    }
}

/// The cells of a row are what stands between its bars.
pub proof fn law_bars_part_cells(row: Seq<char>, first: Seq<char>, rest: Seq<char>)
    requires
        !first.contains('|'),
    ensures
        trim(row, CharClass::PipeOrSpace) == first ==> cells_of(row) == full_cells(seq![first]),
        trim(row, CharClass::PipeOrSpace) == first + seq!['|'] + rest ==> cells_of(row)
            == full_cells(seq![first] + split(rest, '|')),
{
    law_split_first(first, '|', rest);
}

} // verus!
