//! How results are written down: a line on the console for each result, and for each group
//! a table with a column for each benchmark.

use crate::cli::ExecutorId;
use crate::registry::{written, BenchName, Key, Selection};
use crate::result::{mean_of, std_dev_of, BenchResult, SampleCount};
use crate::text::{
    align_left, align_right, decimal, decimal_of, digit_char, left_aligned, push_char,
    right_aligned, texts_of,
};
use vstd::prelude::*;
use vstd::string::*;

verus! {

/// How wide a cell of a table is, in characters.
pub const CELL_WIDTH: usize = 15;

/// A rate in thousandths of a message per microsecond, rounded to the nearest, a half
/// upwards.
pub open spec fn thousandths_of(rate: nat) -> nat {
    (rate + 500) / 1000
}

/// A number below a thousand in three digits.
pub open spec fn three_digits(n: nat) -> Seq<char> {
    seq![digit_char(n / 100), digit_char(n / 10 % 10), digit_char(n % 10)]
}

/// A rate of messages per second, written in messages per microsecond with three
/// decimals.
pub open spec fn micro_of(rate: nat) -> Seq<char> {
    decimal_of(thousandths_of(rate) / 1000) + seq!['.'] + three_digits(thousandths_of(rate) % 1000)
}

/// Writes a rate of messages per second in messages per microsecond.
pub fn micro(rate: u64) -> (text: String)
    ensures
        text@ == micro_of(rate as nat),
{
    let thousandths: u64 = rate / 1000 + (if rate % 1000 >= 500 { 1 } else { 0 });
    assert(thousandths == thousandths_of(rate as nat));
    let mut text = decimal(thousandths / 1000);
    let rest: u64 = thousandths % 1000;
    push_char(&mut text, '.');
    push_char(&mut text, ((rest / 100) as u8 + 48u8) as char);
    push_char(&mut text, ((rest / 10 % 10) as u8 + 48u8) as char);
    push_char(&mut text, ((rest % 10) as u8 + 48u8) as char);
    assert(text@ =~= micro_of(rate as nat));
    text
}

/// The line for a result of one sample: the label, `=` and the parameter in twenty
/// columns, then the rate in twelve.
pub open spec fn single_line(label: Seq<char>, parameter: Seq<char>, mean: nat) -> Seq<char> {
    "        "@ + left_aligned(label + "="@ + parameter, 20) + " "@ + right_aligned(
        micro_of(mean),
        12,
    ) + " msg/µs"@
}

/// The line for a result of several samples: the label, a colon and the parameter in
/// twenty columns, then the mean rate in twelve and the standard deviation, or `?` where
/// it cannot be told.
pub open spec fn averaged_line(
    label: Seq<char>,
    parameter: Seq<char>,
    mean: nat,
    deviation: Option<nat>,
) -> Seq<char> {
    "        "@ + left_aligned(label + ": "@ + parameter, 20) + " "@ + right_aligned(
        micro_of(mean),
        12,
    ) + " msg/µs [±"@ + (match deviation {
        Some(d) => micro_of(d),
        None => "?"@,
    }) + "]"@
}

/// The line that the console shows for a result.
pub fn console_line(result: &BenchResult) -> (line: String)
    ensures
        result@.throughput.len() == 1 ==> line@ == single_line(
            result@.label,
            result@.parameter,
            mean_of(result@.throughput),
        ),
        result@.throughput.len() != 1 ==> line@ == averaged_line(
            result@.label,
            result@.parameter,
            mean_of(result@.throughput),
            std_dev_of(result@.throughput),
        ),
{
    let mean = result.mean();
    let single = result.throughput().len() == 1;
    let mut title = String::new();
    title.append(result.label());
    if single {
        title.append("=");
    } else {
        title.append(": ");
    }
    title.append(result.parameter());
    let mut line = String::new();
    line.append("        ");
    line.append(align_left(title.as_str(), 20).as_str());
    line.append(" ");
    line.append(align_right(micro(mean).as_str(), 12).as_str());
    if single {
        line.append(" msg/µs");
        assert(line@ =~= single_line(result@.label, result@.parameter, mean as nat));
    } else {
        line.append(" msg/µs [±");
        let deviation = result.std_dev();
        match deviation {
            Some(d) => {
                line.append(micro(d).as_str());
            },
            None => {
                line.append("?");
            },
        }
        line.append("]");
        let ghost shown: Option<nat> = match deviation {
            Some(d) => Some(d as nat),
            None => None,
        };
        assert(line@ =~= averaged_line(result@.label, result@.parameter, mean as nat, shown));
    }
    line
}

/// The results of one group as a table: a column of parameters, and a column of mean
/// rates for each benchmark.
pub struct Table {
    titles: Vec<String>,
    parameters: Vec<String>,
    columns: Vec<Vec<String>>,
    current: Vec<String>,
}

/// A table as plain values.
pub struct TableView {
    /// What stands above the columns.
    pub titles: Seq<Seq<char>>,
    /// The column of parameters.
    pub parameters: Seq<Seq<char>>,
    /// The columns of the benchmarks that are done.
    pub columns: Seq<Seq<Seq<char>>>,
    /// The column of the benchmark that is under way.
    pub current: Seq<Seq<char>>,
}

/// The cells of the columns.
pub open spec fn cells_of(columns: Seq<Vec<String>>) -> Seq<Seq<Seq<char>>> {
    columns.map_values(|column: Vec<String>| texts_of(column@))
}

impl View for Table {
    type V = TableView;

    closed spec fn view(&self) -> TableView {
        TableView {
            titles: texts_of(self.titles@),
            parameters: texts_of(self.parameters@),
            columns: cells_of(self.columns@),
            current: texts_of(self.current@),
        }
    }
}

/// The first line of a table: which group it is, and on which runtime.
pub open spec fn caption(group: Seq<char>, runtime: Seq<char>) -> Seq<char> {
    "# '"@ + group + "' benchmark with "@ + runtime + " runtime\n"@
}

/// The titles, each in a cell of its own with a space behind it.
pub open spec fn title_cells(titles: Seq<Seq<char>>) -> Seq<char>
    decreases titles.len(),
{
    if titles.len() == 0 {
        Seq::empty()
    } else {
        title_cells(titles.drop_last()) + right_aligned(titles.last(), CELL_WIDTH as nat) + " "@
    }
}

/// The cells of a row in the given columns, each with a space before it.
pub open spec fn row_cells(columns: Seq<Seq<Seq<char>>>, row: int) -> Seq<char>
    decreases columns.len(),
{
    if columns.len() == 0 {
        Seq::empty()
    } else {
        row_cells(columns.drop_last(), row) + " "@ + right_aligned(
            columns.last()[row],
            CELL_WIDTH as nat,
        )
    }
}

/// The first rows of a table, a line each.
pub open spec fn rows_text(columns: Seq<Seq<Seq<char>>>, rows: nat) -> Seq<char>
    decreases rows,
{
    if rows == 0 {
        Seq::empty()
    } else {
        rows_text(columns, (rows - 1) as nat) + row_cells(columns, rows - 1) + "\n"@
    }
}

impl TableView {
    /// The table has nothing in it.
    pub open spec fn is_blank(self) -> bool {
        self.titles.len() == 0 && self.parameters.len() == 0 && self.columns.len() == 0
            && self.current.len() == 0
    }

    /// Every column of a benchmark has a cell for every parameter.
    pub open spec fn is_filled(self) -> bool {
        forall|c: int|
            0 <= c < self.columns.len() ==> (#[trigger] self.columns[c]).len()
                >= self.parameters.len()
    }

    /// The table after a result of the benchmark under way was taken down. The first
    /// result of all gives the column of parameters its title; the results of the first
    /// benchmark fill the column of parameters.
    pub open spec fn with_result(self, label: Seq<char>, parameter: Seq<char>, mean: nat) -> TableView {
        TableView {
            titles: if self.columns.len() == 0 && self.current.len() == 0 {
                self.titles.push(label)
            } else {
                self.titles
            },
            parameters: if self.columns.len() == 0 {
                self.parameters.push(parameter)
            } else {
                self.parameters
            },
            columns: self.columns,
            current: self.current.push(decimal_of(mean)),
        }
    }

    /// The table after the benchmark under way is done: its column is closed under the
    /// name of the benchmark.
    pub open spec fn with_column(self, name: Seq<char>) -> TableView {
        TableView {
            titles: self.titles.push(name),
            parameters: self.parameters,
            columns: self.columns.push(self.current),
            current: Seq::empty(),
        }
    }

    /// The table as text: the caption, the titles behind a `#`, a row for each parameter,
    /// and an empty line.
    pub open spec fn text(self, group: Seq<char>, runtime: Seq<char>) -> Seq<char> {
        caption(group, runtime) + "#"@ + title_cells(self.titles) + "\n"@ + rows_text(
            seq![self.parameters] + self.columns,
            self.parameters.len(),
        ) + "\n"@
    }
}

impl Table {
    /// A table with nothing in it.
    pub fn new() -> (table: Table)
        ensures
            table@.is_blank(),
    {
        Table {
            titles: Vec::new(),
            parameters: Vec::new(),
            columns: Vec::new(),
            current: Vec::new(),
        }
    }

    /// Takes a result of the benchmark under way down: its mean rate in whole messages
    /// per second.
    pub fn record(&mut self, result: &BenchResult)
        ensures
            final(self)@ == old(self)@.with_result(
                result@.label,
                result@.parameter,
                mean_of(result@.throughput),
            ),
    {
        if self.columns.len() == 0 && self.current.len() == 0 {
            self.titles.push(result.label().to_owned());
        }
        if self.columns.len() == 0 {
            self.parameters.push(result.parameter().to_owned());
        }
        self.current.push(decimal(result.mean()));
        proof {
            let after = old(self)@.with_result(
                result@.label,
                result@.parameter,
                mean_of(result@.throughput),
            );
            assert(self@.titles =~= after.titles);
            assert(self@.parameters =~= after.parameters);
            assert(self@.current =~= after.current);
            assert(self@.columns =~= after.columns);
        }
    }

    /// Closes the column of the benchmark under way under the name of the benchmark.
    pub fn close_column(&mut self, name: &str)
        ensures
            final(self)@ == old(self)@.with_column(name@),
    {
        let mut column: Vec<String> = Vec::new();
        core::mem::swap(&mut self.current, &mut column);
        self.columns.push(column);
        self.titles.push(name.to_owned());
        proof {
            let after = old(self)@.with_column(name@);
            assert(self@.titles =~= after.titles);
            assert(self@.columns =~= after.columns);
            assert(self@.current =~= after.current);
        }
    }

    /// Whether every column of a benchmark has a cell for every parameter.
    pub fn is_filled(&self) -> (filled: bool)
        ensures
            filled == self@.is_filled(),
    {
        let rows = self.parameters.len();
        let mut c: usize = 0;
        while c < self.columns.len()
            invariant
                c <= self.columns@.len(),
                rows == self@.parameters.len(),
                forall|k: int| 0 <= k < c ==> (#[trigger] self@.columns[k]).len() >= rows,
            decreases self.columns@.len() - c,
        {
            if self.columns[c].len() < rows {
                assert(self@.columns[c as int].len() < rows);
                return false;
            }
            c = c + 1;
        }
        true
    }

    /// Writes the table out for a group and a runtime.
    pub fn render(&self, group: &str, runtime: &str) -> (text: String)
        requires
            self@.is_filled(),
        ensures
            text@ == self@.text(group@, runtime@),
    {
        let mut text = String::new();
        text.append("# '");
        text.append(group);
        text.append("' benchmark with ");
        text.append(runtime);
        text.append(" runtime\n");
        assert(text@ =~= caption(group@, runtime@));
        text.append("#");
        let ghost head = text@;
        let mut t: usize = 0;
        while t < self.titles.len()
            invariant
                t <= self.titles@.len(),
                text@ == head + title_cells(self@.titles.subrange(0, t as int)),
            decreases self.titles@.len() - t,
        {
            let cell = align_right(self.titles[t].as_str(), CELL_WIDTH);
            text.append(cell.as_str());
            text.append(" ");
            proof {
                let upto = self@.titles.subrange(0, t + 1);
                assert(upto.drop_last() =~= self@.titles.subrange(0, t as int));
                assert(upto.last() == self.titles@[t as int]@);
                assert(text@ =~= head + title_cells(upto));
            }
            t = t + 1;
        }
        assert(self@.titles.subrange(0, self.titles@.len() as int) =~= self@.titles);
        text.append("\n");
        let ghost top = text@;
        let ghost all = seq![self@.parameters] + self@.columns;
        let rows = self.parameters.len();
        let mut r: usize = 0;
        while r < rows
            invariant
                r <= rows,
                rows == self@.parameters.len(),
                self@.is_filled(),
                all == seq![self@.parameters] + self@.columns,
                text@ == top + rows_text(all, r as nat),
            decreases rows - r,
        {
            let ghost start = text@;
            text.append(" ");
            text.append(align_right(self.parameters[r].as_str(), CELL_WIDTH).as_str());
            proof {
                let first = all.subrange(0, 1);
                assert(first.drop_last() =~= Seq::<Seq<Seq<char>>>::empty());
                assert(first.last() == self@.parameters);
                assert(row_cells(first.drop_last(), r as int) =~= Seq::<char>::empty());
                assert(text@ =~= start + row_cells(first, r as int));
            }
            let mut c: usize = 0;
            while c < self.columns.len()
                invariant
                    c <= self.columns@.len(),
                    r < rows,
                    rows == self@.parameters.len(),
                    self@.is_filled(),
                    all == seq![self@.parameters] + self@.columns,
                    text@ == start + row_cells(all.subrange(0, c + 1), r as int),
                decreases self.columns@.len() - c,
            {
                assert(self@.columns[c as int].len() >= rows);
                text.append(" ");
                text.append(align_right(self.columns[c][r].as_str(), CELL_WIDTH).as_str());
                proof {
                    let upto = all.subrange(0, c + 2);
                    assert(upto.drop_last() =~= all.subrange(0, c + 1));
                    assert(upto.last() == self@.columns[c as int]);
                    assert(self@.columns[c as int][r as int] == self.columns@[c as int]@[r as int]@);
                    assert(text@ =~= start + row_cells(upto, r as int));
                }
                c = c + 1;
            }
            assert(all.subrange(0, self.columns@.len() as int + 1) =~= all);
            text.append("\n");
            assert(text@ =~= top + rows_text(all, (r + 1) as nat));
            r = r + 1;
        }
        text.append("\n");
        assert(text@ =~= self@.text(group@, runtime@));
        text
    }
}

/// What the console shows where no benchmark is taken.
pub const NOTHING_SELECTED: &'static str = "No matching benches found";

/// The line of a benchmark in the list of those that exist.
pub open spec fn list_entry(key: Key) -> Seq<char> {
    "    "@ + written(key)
}

/// Writes the line of a benchmark in the list of those that exist.
pub fn list_line(name: &BenchName) -> (line: String)
    ensures
        line@ == list_entry(name@),
{
    let mut line = String::new();
    line.append("    ");
    line.append(name.full().as_str());
    line
}

/// The line that opens a group on the console.
pub open spec fn running_line(group: Seq<char>, runtime: Seq<char>) -> Seq<char> {
    "Running benchmark '"@ + group + "' with the "@ + runtime + " runtime."@
}

/// The line that says over how many runs the results are averaged.
pub open spec fn averaged_note(samples: nat) -> Seq<char> {
    "All results are averaged over "@ + decimal_of(samples) + " runs."@
}

/// The line that opens a benchmark on the console.
pub open spec fn bench_title(item: Seq<char>) -> Seq<char> {
    "    "@ + item + ":"@
}

/// The lines that the console shows before a benchmark is run: where the benchmark is the
/// first of its group, the line of the group and, unless there is one sample only, the
/// note on the average; then the title of the benchmark.
pub open spec fn opening_lines(
    first_of_group: bool,
    key: Key,
    runtime: Seq<char>,
    samples: nat,
) -> Seq<Seq<char>> {
    (if first_of_group {
        if samples != 1 {
            seq![running_line(key.0, runtime), averaged_note(samples)]
        } else {
            seq![running_line(key.0, runtime)]
        }
    } else {
        Seq::empty()
    }).push(bench_title(key.1))
}

/// What is to be done when a benchmark is over.
#[derive(Debug, PartialEq, Eq)]
pub enum Closing {
    /// Nothing.
    Nothing,
    /// The group is over: save this table.
    Save(String),
    /// The group is over, and a benchmark has fewer results than the first one has: there
    /// is no table to save.
    Ragged,
}

/// The account of a run: what the console is to show, and the table of the group that is
/// under way where tables are saved.
pub struct Session {
    runtime: ExecutorId,
    samples: SampleCount,
    saving: bool,
    table: Table,
}

/// A session as plain values.
pub struct SessionView {
    pub runtime: ExecutorId,
    pub samples: nat,
    pub saving: bool,
    pub table: TableView,
}

impl View for Session {
    type V = SessionView;

    closed spec fn view(&self) -> SessionView {
        SessionView {
            runtime: self.runtime,
            samples: self.samples@,
            saving: self.saving,
            table: self.table@,
        }
    }
}

impl Session {
    /// The account of a run on the given runtime, with so many samples, that saves tables
    /// or does not.
    pub fn new(runtime: ExecutorId, samples: SampleCount, saving: bool) -> (session: Session)
        ensures
            session@.runtime == runtime,
            session@.samples == samples@,
            session@.saving == saving,
            session@.table.is_blank(),
    {
        Session { runtime, samples, saving, table: Table::new() }
    }

    /// The lines to show before the benchmark at a position of the selection is run.
    pub fn open_bench(&self, selection: &Selection, at: usize) -> (lines: Vec<String>)
        requires
            at < selection@.len(),
        ensures
            texts_of(lines@) == opening_lines(
                at == 0 || selection@[at - 1].0 != selection@[at as int].0,
                selection@[at as int],
                self@.runtime.spec_name(),
                self@.samples,
            ),
    {
        let name = selection.get(at);
        let mut lines: Vec<String> = Vec::new();
        if selection.starts_group(at) {
            let mut line = String::new();
            line.append("Running benchmark '");
            line.append(name.group.as_str());
            line.append("' with the ");
            line.append(self.runtime.name());
            line.append(" runtime.");
            assert(line@ =~= running_line(name@.0, self@.runtime.spec_name()));
            lines.push(line);
            let samples = self.samples.get();
            if samples != 1 {
                let mut note = String::new();
                note.append("All results are averaged over ");
                note.append(decimal(samples as u64).as_str());
                note.append(" runs.");
                assert(note@ =~= averaged_note(self@.samples));
                lines.push(note);
            }
        }
        let mut title = String::new();
        title.append("    ");
        title.append(name.item.as_str());
        title.append(":");
        assert(title@ =~= bench_title(name@.1));
        lines.push(title);
        assert(texts_of(lines@) =~= opening_lines(
            at == 0 || selection@[at - 1].0 != selection@[at as int].0,
            selection@[at as int],
            self@.runtime.spec_name(),
            self@.samples,
        ));
        lines
    }

    /// Takes a result of the benchmark under way and returns the line to show for it.
    /// Where tables are saved the result goes into the table.
    pub fn take(&mut self, result: &BenchResult) -> (line: String)
        ensures
            final(self)@.runtime == old(self)@.runtime,
            final(self)@.samples == old(self)@.samples,
            final(self)@.saving == old(self)@.saving,
            final(self)@.table == if old(self)@.saving {
                old(self)@.table.with_result(
                    result@.label,
                    result@.parameter,
                    mean_of(result@.throughput),
                )
            } else {
                old(self)@.table
            },
            result@.throughput.len() == 1 ==> line@ == single_line(
                result@.label,
                result@.parameter,
                mean_of(result@.throughput),
            ),
            result@.throughput.len() != 1 ==> line@ == averaged_line(
                result@.label,
                result@.parameter,
                mean_of(result@.throughput),
                std_dev_of(result@.throughput),
            ),
    {
        if self.saving {
            self.table.record(result);
        }
        console_line(result)
    }

    /// Ends the benchmark at a position of the selection. Where tables are saved its
    /// column is closed under the name of its channel, and where it is the last of its
    /// group the table of the group is handed out and a new one begun.
    pub fn close_bench(&mut self, selection: &Selection, at: usize) -> (closing: Closing)
        requires
            at < selection@.len(),
        ensures
            final(self)@.runtime == old(self)@.runtime,
            final(self)@.samples == old(self)@.samples,
            final(self)@.saving == old(self)@.saving,
            !old(self)@.saving ==> closing == Closing::Nothing && final(self)@.table == old(
                self,
            )@.table,
            old(self)@.saving ==> {
                let closed = old(self)@.table.with_column(selection@[at as int].1);
                if at + 1 == selection@.len() || selection@[at + 1].0 != selection@[at as int].0 {
                    &&& final(self)@.table.is_blank()
                    &&& closed.is_filled() ==> (closing matches Closing::Save(text) && text@
                        == closed.text(selection@[at as int].0, old(self)@.runtime.spec_name()))
                    &&& !closed.is_filled() ==> closing == Closing::Ragged
                } else {
                    final(self)@.table == closed && closing == Closing::Nothing
                }
            },
    {
        if !self.saving {
            return Closing::Nothing;
        }
        let name = selection.get(at);
        self.table.close_column(name.item.as_str());
        if !selection.ends_group(at) {
            return Closing::Nothing;
        }
        let mut table = Table::new();
        core::mem::swap(&mut self.table, &mut table);
        if table.is_filled() {
            Closing::Save(table.render(name.group.as_str(), self.runtime.name()))
        } else {
            Closing::Ragged
        }
    }
}

} // verus!
