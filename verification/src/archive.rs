//! Reading the archive back: the newest run, the newest object, and in it
//! the first row, which is the most recent reading.

use crate::push::{body_text, row_text, rows_newest_first, Row};
use crate::text::{
    centi_text, is_field_text, join, lacks, lemma_centi_is_field_text, lemma_split_append,
    lemma_split_join, lemma_split_nonempty, split,
};
use vstd::prelude::*;

verus! {

/// The text before the first line break, or all of it where there is none.
pub open spec fn first_line(text: Seq<char>) -> Seq<char>
    decreases text.len(),
{
    if text.len() == 0 || text[0] == '\n' {
        Seq::empty()
    } else {
        seq![text[0]] + first_line(text.drop_first())
    }
}

/// The fields of the first row of an object: its first line, split at the
/// commas.
pub open spec fn first_row_fields(contents: Seq<char>) -> Seq<Seq<char>> {
    split(first_line(contents), ',')
}

/// The first line ends at the first line break, or at the end of the text.
pub proof fn lemma_first_line_end(text: Seq<char>, end: int)
    requires
        0 <= end <= text.len(),
        forall|j: int| 0 <= j < end ==> text[j] != '\n',
        end == text.len() || text[end] == '\n',
    ensures
        first_line(text) == text.take(end),
    decreases end,
{
    if end == 0 {
        assert(text.take(0) =~= Seq::empty());
    } else {
        lemma_first_line_end(text.drop_first(), end - 1);
        assert(text.take(end) =~= seq![text[0]] + text.drop_first().take(end - 1));
    }
}

/// Why an object's first row is no reading.
#[derive(Clone, Copy, Debug, PartialEq, Eq, Structural)]
pub enum RowError {
    /// The row does not have exactly two fields.
    FieldCount,
}

/// The two fields of a row, as text.
#[derive(Debug, PartialEq, Eq)]
pub struct LatestRow {
    /// The temperature field.
    pub temp: String,
    /// The timestamp field.
    pub time: String,
}

/// Takes the most recent reading out of an object's content: the first
/// line, which must consist of exactly two fields with a comma between
/// them. The fields come back as they stand in the file.
pub fn latest_row(contents: &str) -> (row: Result<LatestRow, RowError>)
    ensures
        match row {
            Ok(r) => first_row_fields(contents@) == seq![r.temp@, r.time@],
            Err(_) => first_row_fields(contents@).len() != 2,
        },
{
    let mut temp = String::new();
    let mut time = String::new();
    let mut commas: u8 = 0;
    proof {
        assert(contents@.take(0) =~= Seq::empty());
        assert(split(Seq::empty(), ',') =~= seq![temp@]);
    }
    for c in it: contents.chars()
        invariant
            it.seq() == contents@,
            forall|j: int| 0 <= j < it.index() ==> contents@[j] != '\n',
            commas <= 2,
            scanned(contents@.take(it.index() as int), commas, temp@, time@),
    {
        let ghost seen = contents@.take(it.index() as int);
        if c == '\n' {
            proof {
                lemma_first_line_end(contents@, it.index() as int);
            }
            return finish(commas, temp, time, Ghost(seen));
        }
        proof {
            let longer = contents@.take(it.index() + 1);
            assert(longer.drop_last() =~= seen);
            assert(longer.last() == c);
            lemma_split_nonempty(seen, ',');
        }
        if c == ',' {
            if commas < 2 {
                commas += 1;
            }
        } else if commas == 0 {
            temp.push(c);
        } else if commas == 1 {
            time.push(c);
        }
        proof {
            let longer = contents@.take(it.index() + 1);
            let parts = split(seen, ',');
            if c != ',' {
                assert(split(longer, ',') == parts.drop_last().push(parts.last().push(c)));
                if commas == 0 {
                    assert(split(longer, ',') =~= seq![temp@]);
                } else if commas == 1 {
                    assert(split(longer, ',') =~= seq![temp@, time@]);
                }
            } else {
                assert(split(longer, ',') == parts.push(Seq::empty()));
                if commas == 1 {
                    assert(time@ =~= Seq::<char>::empty());
                    assert(split(longer, ',') =~= seq![temp@, time@]);
                }
            }
        }
    }
    proof {
        lemma_first_line_end(contents@, contents@.len() as int);
    }
    finish(commas, temp, time, Ghost(contents@.take(contents@.len() as int)))
}

/// What a scan knows of the line so far: its fields, as long as there are
/// no more than two.
spec fn scanned(seen: Seq<char>, commas: u8, temp: Seq<char>, time: Seq<char>) -> bool {
    let parts = split(seen, ',');
    if commas == 0 {
        parts == seq![temp] && time.len() == 0
    } else if commas == 1 {
        parts == seq![temp, time]
    } else {
        parts.len() > 2
    }
}

/// The result of a scan whose line is complete.
fn finish(commas: u8, temp: String, time: String, Ghost(line): Ghost<Seq<char>>) -> (row: Result<
    LatestRow,
    RowError,
>)
    requires
        scanned(line, commas, temp@, time@),
    ensures
        match row {
            Ok(r) => split(line, ',') == seq![r.temp@, r.time@],
            Err(_) => split(line, ',').len() != 2,
        },
{
    if commas == 1 {
        Ok(LatestRow { temp, time })
    } else {
        Err(RowError::FieldCount)
    }
}

/// Reading back what was written. The content of a window's object, split
/// at the line breaks, is the window's rows, most recent first and as many
/// as the window has readings; its first row is the most recent reading,
/// and that row's two fields are the reading's temperature and timestamp.
/// This holds where the timestamps are field text, as the clock's are.
pub proof fn lemma_read_back(window: Seq<Row>)
    requires
        window.len() >= 1,
        forall|i: int| 0 <= i < window.len() ==> is_field_text(#[trigger] window[i].time),
    ensures
        split(body_text(window), '\n') == rows_newest_first(window),
        split(body_text(window), '\n').len() == window.len(),
        first_line(body_text(window)) == row_text(window.last()),
        first_row_fields(body_text(window)) == seq![
            centi_text(window.last().temp),
            window.last().time,
        ],
{
    let rows = rows_newest_first(window);
    assert forall|i: int| 0 <= i < rows.len() implies lacks(#[trigger] rows[i], '\n') by {
        let row = window[window.len() - 1 - i];
        lemma_centi_is_field_text(row.temp);
        assert(is_field_text(row.time));
    }
    lemma_split_join(rows, '\n');
    lemma_first_line_of_join(rows);
    let newest = window.last();
    lemma_centi_is_field_text(newest.temp);
    let fields = seq![centi_text(newest.temp), newest.time];
    assert(fields.drop_last() =~= seq![centi_text(newest.temp)]);
    assert(join(fields.drop_last(), ',') == centi_text(newest.temp));
    assert(join(fields, ',') =~= row_text(newest));
    lemma_split_join(fields, ',');
}

/// The first line of joined lines is the first of them, where that one
/// holds no line break.
pub proof fn lemma_first_line_of_join(lines: Seq<Seq<char>>)
    requires
        lines.len() >= 1,
        lacks(lines[0], '\n'),
    ensures
        first_line(join(lines, '\n')) == lines[0],
    decreases lines.len(),
{
    let text = join(lines, '\n');
    let head = lines[0];
    if lines.len() == 1 {
        lemma_first_line_end(text, text.len() as int);
        assert(text.take(text.len() as int) =~= text);
    } else {
        lemma_first_line_of_join(lines.drop_last());
        lemma_join_starts_with_first(lines);
        assert forall|j: int| 0 <= j < head.len() implies text[j] != '\n' by {
            assert(text[j] == text.take(head.len() as int)[j]);
        }
        lemma_first_line_end(text, head.len() as int);
        assert(text.take(head.len() as int) =~= head);
    }
}

/// Two or more joined lines start with the first line and a line break.
proof fn lemma_join_starts_with_first(lines: Seq<Seq<char>>)
    requires
        lines.len() >= 2,
    ensures
        join(lines, '\n').len() > lines[0].len(),
        join(lines, '\n').take(lines[0].len() as int) == lines[0],
        join(lines, '\n')[lines[0].len() as int] == '\n',
    decreases lines.len(),
{
    let front = lines.drop_last();
    if lines.len() == 2 {
        assert(join(front, '\n') == lines[0]);
        assert(join(lines, '\n').take(lines[0].len() as int) =~= lines[0]);
    } else {
        lemma_join_starts_with_first(front);
        assert(join(lines, '\n').take(lines[0].len() as int) =~= join(front, '\n').take(
            lines[0].len() as int,
        ));
    }
}

/// What to do after a page of a listing.
#[derive(Clone, Copy, Debug, PartialEq, Eq, Structural)]
pub enum PageAction {
    /// Ask for the next page.
    Next,
    /// Stop listing.
    Stop,
}

/// Takes one page of a listing whose names come in ascending order and
/// keeps track of the last name seen. A page with names replaces what was
/// kept by its last name, be that `None` for an entry without name; an
/// empty page ends the listing and leaves what was kept.
pub fn take_page(latest: &mut Option<String>, page: Vec<Option<String>>) -> (action: PageAction)
    ensures
        page@.len() == 0 ==> action == PageAction::Stop && *final(latest) == *old(latest),
        page@.len() > 0 ==> action == PageAction::Next && *final(latest) == page@.last(),
{
    let mut page = page;
    match page.pop() {
        None => PageAction::Stop,
        Some(name) => {
            *latest = name;
            PageAction::Next
        },
    }
}

} // verus!
