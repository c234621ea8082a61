//! The output sink: what is appended to the output file, as lines of text
//! or as one JSON array, so that the file is complete whenever the run
//! ends.

use crate::record::{joined, OutputRecord};
use crate::search::matches_at;
use crate::text::{chars_of, concat2};
use vstd::prelude::*;

verus! {

/// Whether `path` names a JSON file: it ends in `.json`, behind a file
/// name of at least one character.
pub open spec fn is_json_path(path: Seq<char>) -> bool {
    &&& path.len() > 5
    &&& path.subrange(path.len() - 5, path.len() as int) == ".json"@
    &&& path[path.len() - 6] != '/'
}

/// Whether `path` names a JSON file.
pub fn has_json_extension(path: &str) -> (b: bool)
    ensures
        b == is_json_path(path@),
{
    let p = chars_of(path);
    let suffix = chars_of(".json");
    proof {
        reveal_strlit(".json");
    }
    if p.len() <= 5 {
        return false;
    }
    let at = p.len() - 5;
    matches_at(&p, &suffix, at) && p[at - 1] != '/'
}

/// The file writer as values: its mode, the entries written so far, and
/// whether the file was finalized.
pub struct FileWriterModel {
    pub json_mode: bool,
    pub entries: Seq<Seq<char>>,
    pub finalized: bool,
}

/// `lines`, each followed by a line feed.
pub open spec fn text_lines(lines: Seq<Seq<char>>) -> Seq<char>
    decreases lines.len(),
{
    if lines.len() == 0 {
        Seq::empty()
    } else {
        text_lines(lines.drop_last()) + lines.last() + "\n"@
    }
}

/// The JSON array of `records` as it stands in the file: an opening
/// bracket, the records with a comma between each two, a closing bracket.
pub open spec fn json_array(records: Seq<Seq<char>>) -> Seq<char> {
    "[\n"@ + joined(records, ",\n"@) + "\n]\n"@
}

impl FileWriterModel {
    /// What the file holds when every text that the writer handed out was
    /// appended to it in order.
    pub open spec fn content(self) -> Seq<char> {
        if self.json_mode {
            if self.finalized {
                json_array(self.entries)
            } else {
                "[\n"@ + joined(self.entries, ",\n"@)
            }
        } else {
            text_lines(self.entries)
        }
    }
}

/// The writer of one output file. It performs no I/O itself: each call
/// hands out the text that the caller appends to the file.
pub struct FileWriter {
    json_mode: bool,
    first_entry: bool,
    finalized: bool,
    entries: Ghost<Seq<Seq<char>>>,
}

impl View for FileWriter {
    type V = FileWriterModel;

    closed spec fn view(&self) -> FileWriterModel {
        FileWriterModel {
            json_mode: self.json_mode,
            entries: self.entries@,
            finalized: self.finalized,
        }
    }
}

impl FileWriter {
    #[verifier::type_invariant]
    spec fn consistent(self) -> bool {
        self.first_entry == (self.entries@.len() == 0)
    }

    /// A writer for the file at `path`; the path decides the mode.
    pub fn new(path: &str) -> (w: FileWriter)
        ensures
            w@ == (FileWriterModel {
                json_mode: is_json_path(path@),
                entries: Seq::empty(),
                finalized: false,
            }),
    {
        FileWriter {
            json_mode: has_json_extension(path),
            first_entry: true,
            finalized: false,
            entries: Ghost(Seq::empty()),
        }
    }

    /// The text with which the file begins: the opening bracket in JSON
    /// mode, nothing in text mode.
    pub fn opening(&self) -> (text: String)
        ensures
            text@ == if self@.json_mode {
                "[\n"@
            } else {
                Seq::empty()
            },
            self@.entries.len() == 0 && !self@.finalized ==> text@ == self@.content(),
    {
        if self.json_mode {
            "[\n".to_owned()
        } else {
            let text = String::new();
            text
        }
    }

    /// Hands out `line` with its line feed. A text file takes a line at any
    /// time: completing it writes nothing, so a line may follow. A JSON
    /// file holds no lines: there the text is empty and nothing changes.
    pub fn write_line(&mut self, line: &str) -> (text: String)
        ensures
            if old(self)@.json_mode {
                final(self)@ == old(self)@ && text@.len() == 0
            } else {
                final(self)@ == (FileWriterModel {
                    entries: old(self)@.entries.push(line@),
                    ..old(self)@
                }) && text@ == line@ + "\n"@
            },
            final(self)@.content() == old(self)@.content() + text@,
    {
        proof {
            use_type_invariant(&*self);
        }
        if self.json_mode {
            let text = String::new();
            assert(self@.content() + text@ =~= self@.content());
            text
        } else {
            let ghost grown = self.entries@.push(line@);
            proof {
                assert(grown.drop_last() =~= self.entries@);
            }
            *self = FileWriter {
                json_mode: self.json_mode,
                first_entry: false,
                finalized: self.finalized,
                entries: Ghost(grown),
            };
            concat2(line, "\n")
        }
    }

    /// Hands out the record `json`, behind a comma unless it is the first.
    /// A text file holds no records, and a finalized file takes no more:
    /// there the text is empty and nothing changes.
    pub fn write_json(&mut self, json: &str) -> (text: String)
        ensures
            if !old(self)@.json_mode || old(self)@.finalized {
                final(self)@ == old(self)@ && text@.len() == 0
            } else {
                final(self)@ == (FileWriterModel {
                    entries: old(self)@.entries.push(json@),
                    ..old(self)@
                }) && text@ == if old(self)@.entries.len() == 0 {
                    json@
                } else {
                    ",\n"@ + json@
                }
            },
            final(self)@.content() == old(self)@.content() + text@,
    {
        proof {
            use_type_invariant(&*self);
        }
        if !self.json_mode || self.finalized {
            let text = String::new();
            assert(self@.content() + text@ =~= self@.content());
            text
        } else {
            let ghost before = self.entries@;
            let ghost grown = before.push(json@);
            let first = self.first_entry;
            proof {
                assert(grown.drop_last() =~= before);
                if before.len() == 0 {
                    assert(joined(before, ",\n"@) + json@ =~= json@);
                    assert(grown[0] == json@);
                }
            }
            *self = FileWriter {
                json_mode: self.json_mode,
                first_entry: false,
                finalized: self.finalized,
                entries: Ghost(grown),
            };
            if first {
                json.to_owned()
            } else {
                concat2(",\n", json)
            }
        }
    }

    /// Hands out the text that completes the file: the closing bracket in
    /// JSON mode, nothing in text mode or when called again.
    pub fn finalize(&mut self) -> (text: String)
        ensures
            final(self)@ == (FileWriterModel { finalized: true, ..old(self)@ }),
            text@ == if old(self)@.json_mode && !old(self)@.finalized {
                "\n]\n"@
            } else {
                Seq::empty()
            },
            final(self)@.content() == old(self)@.content() + text@,
            final(self)@.json_mode ==> final(self)@.content() == json_array(final(self)@.entries),
    {
        proof {
            use_type_invariant(&*self);
        }
        let closing = self.json_mode && !self.finalized;
        *self = FileWriter {
            json_mode: self.json_mode,
            first_entry: self.first_entry,
            finalized: true,
            entries: Ghost(self.entries@),
        };
        if closing {
            "\n]\n".to_owned()
        } else {
            let text = String::new();
            assert(old(self)@.content() + text@ =~= old(self)@.content());
            text
        }
    }

    /// Whether the file is a JSON array.
    pub fn is_json(&self) -> (b: bool)
        ensures
            b == self@.json_mode,
    {
        self.json_mode
    }
}

/// The sink of a run: a file writer if an output file was asked for.
pub struct OutputHandler {
    file_writer: Option<FileWriter>,
}

impl OutputHandler {
    /// The writer's model, if there is a file.
    pub closed spec fn writer(&self) -> Option<FileWriterModel> {
        match self.file_writer {
            Some(w) => Some(w@),
            None => None,
        }
    }

    /// What the output file holds; nothing where there is none.
    pub open spec fn content(&self) -> Seq<char> {
        match self.writer() {
            Some(w) => w.content(),
            None => Seq::empty(),
        }
    }

    /// A sink that writes to the file at `output_path`, or to the console
    /// only.
    pub fn new(output_path: Option<&str>) -> (h: OutputHandler)
        ensures
            h.writer() == match output_path {
                Some(path) => Some(
                    FileWriterModel {
                        json_mode: is_json_path(path@),
                        entries: Seq::empty(),
                        finalized: false,
                    },
                ),
                None => None,
            },
    {
        match output_path {
            Some(path) => OutputHandler { file_writer: Some(FileWriter::new(path)) },
            None => OutputHandler { file_writer: None },
        }
    }

    /// The file writer, if an output file was asked for.
    pub fn file_writer(&self) -> (w: Option<&FileWriter>)
        ensures
            match w {
                Some(writer) => self.writer() == Some(writer@),
                None => self.writer() is None,
            },
    {
        self.file_writer.as_ref()
    }

    /// Whether matches go to a JSON file, for which the caller provides
    /// each record as JSON text.
    pub fn wants_json(&self) -> (b: bool)
        ensures
            b == (self.writer() matches Some(w) && w.json_mode),
    {
        match &self.file_writer {
            Some(w) => w.is_json(),
            None => false,
        }
    }

    /// The text with which the file begins.
    pub fn opening(&self) -> (text: String)
        ensures
            text@ == match self.writer() {
                Some(w) => if w.json_mode {
                    "[\n"@
                } else {
                    Seq::empty()
                },
                None => Seq::empty(),
            },
            self.writer() matches Some(w) ==> (w.entries.len() == 0 && !w.finalized ==> text@
                == self.content()),
    {
        match &self.file_writer {
            Some(w) => w.opening(),
            None => {
                let text = String::new();
                text
            },
        }
    }

    /// Hands out what a match appends to the file: the record's line in
    /// text mode, `json` as the next element of the array in JSON mode,
    /// nothing without a file.
    pub fn emit(&mut self, record: &OutputRecord, json: &str) -> (text: String)
        ensures
            final(self).content() == old(self).content() + text@,
            match old(self).writer() {
                None => final(self).writer() is None && text@.len() == 0,
                Some(w) => final(self).writer() matches Some(after) && if w.json_mode
                    && w.finalized {
                    after == w
                } else {
                    after == (FileWriterModel {
                        entries: w.entries.push(
                            if w.json_mode {
                                json@
                            } else {
                                record.line_model()
                            },
                        ),
                        ..w
                    })
                },
            },
    {
        match self.file_writer.take() {
            None => {
                let text = String::new();
                assert(old(self).content() + text@ == old(self).content());
                text
            },
            Some(mut w) => {
                let text = if w.is_json() {
                    w.write_json(json)
                } else {
                    let line = record.line();
                    w.write_line(line.as_str())
                };
                self.file_writer = Some(w);
                text
            },
        }
    }

    /// Hands out the text that completes the file.
    pub fn finalize(&mut self) -> (text: String)
        ensures
            final(self).content() == old(self).content() + text@,
            match old(self).writer() {
                None => final(self).writer() is None && text@.len() == 0,
                Some(w) => final(self).writer() == Some(FileWriterModel { finalized: true, ..w })
                    && (w.json_mode ==> final(self).content() == json_array(w.entries)),
            },
    {
        match self.file_writer.take() {
            None => {
                let text = String::new();
                assert(old(self).content() + text@ == old(self).content());
                text
            },
            Some(mut w) => {
                let text = w.finalize();
                self.file_writer = Some(w);
                text
            },
        }
    }
}

} // verus!
