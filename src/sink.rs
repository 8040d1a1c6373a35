use vstd::prelude::*;
use crate::tasks::SetupError;

verus! {

/// How the sink renders a debug record.
#[derive(PartialEq, Eq, Structural, Clone, Copy, Debug)]
pub enum DebugFormat {
    /// One JSON object per line.
    Structured,
    /// The record's debug dump.
    Raw,
}

/// Full context of one failed or flagged request.
#[derive(Debug)]
pub struct DebugRecord {
    pub tag: String,
    pub method: String,
    pub url: String,
    pub status_code: u16,
    pub success: bool,
    pub elapsed: u64,
    pub header: Option<String>,
    pub body: Option<String>,
}

/// What one receive on the sink's channel produced.
#[derive(PartialEq, Eq, Structural, Clone, Copy, Debug)]
pub enum SinkInput {
    /// A debug record arrived.
    Record,
    /// An empty message: the explicit request to stop.
    Shutdown,
    /// Every sender is gone.
    Closed,
}

/// What the sink's owner does next.
#[derive(PartialEq, Eq, Structural, Clone, Copy, Debug)]
pub enum SinkAction {
    /// Render the record in this format and append it as one line.
    Write(DebugFormat),
    /// Drop the record: no file is configured.
    Discard,
    /// Flush the file and stop.
    FlushAndStop,
    /// Stop: there is nothing to flush.
    Stop,
}

/// Decisions of the debug-log sink. It runs until the first shutdown
/// message or the channel's closing, and counts what it wrote.
pub struct Sink {
    has_file: bool,
    format: DebugFormat,
    running: bool,
    lines_written: u64,
    write_failures: u64,
    discarded: u64,
}

/// Ghost state of a sink.
pub struct SinkModel {
    pub has_file: bool,
    pub format: DebugFormat,
    pub running: bool,
    pub lines_written: nat,
    pub write_failures: nat,
    pub discarded: nat,
}

/// The sink's decision on `input`.
pub open spec fn sink_action(m: SinkModel, input: SinkInput) -> SinkAction {
    match input {
        SinkInput::Record => if m.has_file {
            SinkAction::Write(m.format)
        } else {
            SinkAction::Discard
        },
        _ => if m.has_file {
            SinkAction::FlushAndStop
        } else {
            SinkAction::Stop
        },
    }
}

/// `line` followed by one newline.
pub open spec fn framed(line: Seq<char>) -> Seq<char> {
    line.push('\n')
}

/// A framed debug line is never empty, ends with its newline, and gives
/// back the rendered record when that newline is taken off.
pub proof fn lemma_framed_line_well_formed(line: Seq<char>)
    ensures
        framed(line).len() > 0,
        framed(line).last() == '\n',
        framed(line).drop_last() == line,
{
    assert(framed(line).drop_last() =~= line);
}

/// Reads a configured format name: "json" or "raw".
pub fn parse_debug_format(name: &str) -> (r: Result<DebugFormat, SetupError>)
    ensures
        name@ == "json"@ ==> r == Ok::<DebugFormat, SetupError>(DebugFormat::Structured),
        name@ == "raw"@ ==> r == Ok::<DebugFormat, SetupError>(DebugFormat::Raw),
        name@ != "json"@ && name@ != "raw"@ ==> r == Err::<DebugFormat, SetupError>(
            SetupError::InvalidDebugFormat,
        ),
{
    let given: String = name.to_owned();
    let json: String = "json".to_owned();
    let raw: String = "raw".to_owned();
    proof {
        reveal_strlit("json");
        reveal_strlit("raw");
        assert("json"@.len() != "raw"@.len());
    }
    if given.eq(&json) {
        Ok(DebugFormat::Structured)
    } else if given.eq(&raw) {
        Ok(DebugFormat::Raw)
    } else {
        Err(SetupError::InvalidDebugFormat)
    }
}

/// Appends the newline that ends a debug-log line.
pub fn frame_line(line: &str) -> (r: String)
    ensures
        r@ == framed(line@),
{
    let framed_line = line.to_owned().concat("\n");
    proof {
        reveal_strlit("\n");
        assert(framed_line@ =~= framed(line@));
    }
    framed_line
}

impl Sink {
    pub closed spec fn view(&self) -> SinkModel {
        SinkModel {
            has_file: self.has_file,
            format: self.format,
            running: self.running,
            lines_written: self.lines_written as nat,
            write_failures: self.write_failures as nat,
            discarded: self.discarded as nat,
        }
    }

    /// A running sink; it writes to a file exactly when `path` is not empty.
    pub fn new(path: &str, format: DebugFormat) -> (r: Sink)
        ensures
            r@ == (SinkModel {
                has_file: path@.len() > 0,
                format,
                running: true,
                lines_written: 0,
                write_failures: 0,
                discarded: 0,
            }),
    {
        Sink {
            has_file: !path.is_empty(),
            format,
            running: true,
            lines_written: 0,
            write_failures: 0,
            discarded: 0,
        }
    }

    /// Whether the owner must create the file before the first receive.
    pub fn has_file(&self) -> (r: bool)
        ensures
            r == self@.has_file,
    {
        self.has_file
    }

    pub fn is_running(&self) -> (r: bool)
        ensures
            r == self@.running,
    {
        self.running
    }

    pub fn lines_written(&self) -> (r: u64)
        ensures
            r == self@.lines_written,
    {
        self.lines_written
    }

    pub fn write_failures(&self) -> (r: u64)
        ensures
            r == self@.write_failures,
    {
        self.write_failures
    }

    pub fn discarded(&self) -> (r: u64)
        ensures
            r == self@.discarded,
    {
        self.discarded
    }

    /// Decides what to do with one receive. A shutdown message or a closed
    /// channel ends the loop; a record is written where a file is open and
    /// dropped otherwise.
    pub fn on_input(&mut self, input: SinkInput) -> (action: SinkAction)
        requires
            old(self)@.running,
            old(self)@.discarded < u64::MAX,
        ensures
            action == sink_action(old(self)@, input),
            final(self)@ == (SinkModel {
                running: input == SinkInput::Record,
                discarded: if action == SinkAction::Discard {
                    old(self)@.discarded + 1
                } else {
                    old(self)@.discarded
                },
                ..old(self)@
            }),
    {
        match input {
            SinkInput::Record => {
                if self.has_file {
                    SinkAction::Write(self.format)
                } else {
                    self.discarded = self.discarded + 1;
                    SinkAction::Discard
                }
            },
            _ => {
                self.running = false;
                if self.has_file {
                    SinkAction::FlushAndStop
                } else {
                    SinkAction::Stop
                }
            },
        }
    }

    /// Counts the outcome of one write. A failed write is only counted: the
    /// sink goes on.
    pub fn on_written(&mut self, ok: bool)
        requires
            old(self)@.lines_written < u64::MAX,
            old(self)@.write_failures < u64::MAX,
        ensures
            final(self)@ == (SinkModel {
                lines_written: if ok {
                    old(self)@.lines_written + 1
                } else {
                    old(self)@.lines_written
                },
                write_failures: if ok {
                    old(self)@.write_failures
                } else {
                    old(self)@.write_failures + 1
                },
                ..old(self)@
            }),
    {
        if ok {
            self.lines_written = self.lines_written + 1;
        } else {
            self.write_failures = self.write_failures + 1;
        }
    }
}

} // verus!
