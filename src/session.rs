use vstd::prelude::*;

use crate::cipher::{decoded, encode_seq, pairing, report_of, transcript_of, Cipher};
use crate::entry::{
    file_named, has_blank_line, input_complete, key_parts, mode_named, parse_file_name, parse_key,
    parse_mode, Mode,
};
use crate::scramble::scramble;
use crate::text::{is_word, lowercase_of, to_lower, trim, trim_end, trim_end_of, trim_of};

verus! {

/// Where a session stands: which answer it waits for.
#[derive(Clone, Copy, Debug, PartialEq, Eq, Structural)]
pub enum Stage {
    /// Whether to encode or decode.
    Choose,
    /// The name of the file to record in, or `no`.
    FileName(Mode),
    /// Whether the user gives a key of their own.
    OwnKey,
    /// A key written `source=target`.
    Key(Mode),
    /// A line of the text to transform.
    Data(Mode),
    /// Nothing: the session is over.
    Done,
}

/// What the caller does next for a session.
pub enum Action {
    /// Show the text, read one line and hand it to `step`, line ending
    /// included.
    Ask(String),
    /// Open the named file for appending, creating it where it does not
    /// exist; then show the text, read one line and hand it to `step`.
    Open(String, String),
    /// Show the text; the session is over.
    Show(String),
    /// Append the text to the named file; the session is over.
    Save(String, String),
}

/// An interactive session that encodes or decodes one text.
pub struct User {
    stage: Stage,
    file: Option<String>,
    cipher: Option<Cipher>,
    data: String,
}

/// An answer to a yes-or-no question, once lower-cased and without
/// trailing whitespace.
pub open spec fn answer_of(line: Seq<char>) -> Seq<char> {
    trim_end_of(lowercase_of(line))
}

/// The stage that follows `st` once `line` is read, where `data` is the
/// text collected so far.
pub open spec fn next_stage(st: Stage, line: Seq<char>, data: Seq<char>) -> Stage {
    match st {
        Stage::Choose => match mode_named(trim_of(lowercase_of(line))) {
            Some(m) => Stage::FileName(m),
            None => Stage::Choose,
        },
        Stage::FileName(m) => if m == Mode::Encode {
            Stage::OwnKey
        } else {
            Stage::Key(Mode::Decode)
        },
        Stage::OwnKey => {
            let a = answer_of(line);
            if a == "no"@ || a == "n"@ {
                Stage::Data(Mode::Encode)
            } else if a == "yes"@ || a == "y"@ {
                Stage::Key(Mode::Encode)
            } else {
                Stage::OwnKey
            }
        },
        Stage::Key(m) => match key_parts(trim_of(line)) {
            Some(p) if p.0.len() == p.1.len() => Stage::Data(m),
            _ => if m == Mode::Encode {
                Stage::OwnKey
            } else {
                Stage::Key(Mode::Decode)
            },
        },
        Stage::Data(m) => if has_blank_line(data + line) {
            Stage::Done
        } else {
            Stage::Data(m)
        },
        Stage::Done => Stage::Done,
    }
}

/// The question that asks for a key, or whether to give one.
pub open spec fn key_question(m: Mode) -> Seq<char> {
    if m == Mode::Encode {
        "Would you like to insert your own key?"@
    } else {
        "Input key (format: abc=xyz)"@
    }
}

/// The request for the text to transform.
pub open spec fn data_prompt(m: Mode) -> Seq<char> {
    if m == Mode::Encode {
        "Input data for encryption... Press enter twice to finish"@
    } else {
        "Input encoded data... Press enter twice to finish"@
    }
}

/// The text shown after `line` is read at stage `st`, while the session
/// goes on.
pub open spec fn shown(st: Stage, line: Seq<char>) -> Seq<char> {
    match st {
        Stage::Choose => if mode_named(trim_of(lowercase_of(line))) is Some {
            "Input name for text file... Or 'no' to not use a file"@
        } else {
            "Invalid option... Try again\nEncode or Decode?"@
        },
        Stage::FileName(m) => key_question(m),
        Stage::OwnKey => {
            let a = answer_of(line);
            if a == "no"@ || a == "n"@ {
                data_prompt(Mode::Encode)
            } else if a == "yes"@ || a == "y"@ {
                key_question(Mode::Decode)
            } else {
                "Invalid option... Try again\nWould you like to insert your own key?"@
            }
        },
        Stage::Key(m) => match key_parts(trim_of(line)) {
            None => "Key error: no '=' in key\n"@ + key_question(m),
            Some(p) => if p.0.len() == p.1.len() {
                data_prompt(m)
            } else {
                "Key error: unequal lengths\n"@ + key_question(m)
            },
        },
        _ => Seq::empty(),
    }
}

/// `o` is what transforming `input` the way `mode` says gives under `m`.
pub open spec fn transformed(mode: Mode, m: Map<char, char>, input: Seq<char>, o: Seq<char>) -> bool {
    if mode == Mode::Encode {
        o == encode_seq(m, input)
    } else {
        decoded(m, input, o)
    }
}

/// The alphabet whose scrambling gives the key when the user gives none.
pub open spec fn default_alphabet() -> Seq<char> {
    "abcdefghijklmnopqrstuvwxyz"@
}

impl User {
    pub closed spec fn stage_of(&self) -> Stage {
        self.stage
    }

    pub closed spec fn file_of(&self) -> Option<Seq<char>> {
        match self.file {
            Some(f) => Some(f@),
            None => None,
        }
    }

    pub closed spec fn cipher_of(&self) -> Option<Cipher> {
        self.cipher
    }

    /// The text collected so far.
    pub closed spec fn data_of(&self) -> Seq<char> {
        self.data@
    }

    pub closed spec fn wf(&self) -> bool {
        &&& (self.stage is Data ==> self.cipher is Some)
        &&& (self.cipher matches Some(c) ==> c.wf())
    }

    /// The mode of the text that the session collects.
    pub open spec fn data_mode(&self) -> Mode {
        match self.stage_of() {
            Stage::Data(m) => m,
            _ => Mode::Encode,
        }
    }

    /// Once the text is complete with `line`, the session transforms the
    /// trimmed text into `o`, then records it in its file, or shows it
    /// where it has none, by `a`.
    pub open spec fn ends_with(&self, line: Seq<char>, a: Action, o: Seq<char>) -> bool {
        let input = trim_of(self.data_of() + line);
        let c = self.cipher_of()->Some_0;
        &&& self.cipher_of() is Some
        &&& transformed(self.data_mode(), c.mapping(), lowercase_of(input), o)
        &&& match self.file_of() {
            Some(f) => a matches Action::Save(n, t) && n@ == f && t@ == transcript_of(
                c.source(),
                c.target(),
                input,
                o,
            ),
            None => a matches Action::Show(t) && t@ == report_of(
                self.data_mode(),
                c.source(),
                c.target(),
                input,
                o,
            ),
        }
    }

    /// Opens a session: it asks whether to encode or decode.
    pub fn start() -> (r: (User, Action))
        ensures
            r.0.wf(),
            r.0.stage_of() == Stage::Choose,
            r.0.file_of() is None,
            r.0.cipher_of() is None,
            r.0.data_of() == Seq::<char>::empty(),
            r.1 matches Action::Ask(t) && t@ == "Encode or Decode?"@,
    {
        let u = User { stage: Stage::Choose, file: None, cipher: None, data: String::new() };
        (u, Action::Ask(String::from_str("Encode or Decode?")))
    }

    /// Takes the line the user gave in answer to the last action, and says
    /// what to do next.
    pub fn step(&mut self, line: &str) -> (a: Action)
        requires
            old(self).wf(),
            old(self).stage_of() != Stage::Done,
        ensures
            final(self).wf(),
            final(self).stage_of() == next_stage(old(self).stage_of(), line@, old(self).data_of()),
            old(self).stage_of() is FileName ==> final(self).file_of() == file_named(line@),
            !(old(self).stage_of() is FileName) ==> final(self).file_of() == old(self).file_of(),
            old(self).stage_of() is Key && final(self).stage_of() is Data ==> {
                &&& key_parts(trim_of(line@)) matches Some(p)
                &&& final(self).cipher_of() matches Some(c)
                &&& c.source() == p.0
                &&& c.target() == p.1
                &&& c.mapping() == pairing(lowercase_of(p.0), lowercase_of(p.1))
            },
            old(self).stage_of() is OwnKey && final(self).stage_of() is Data ==> {
                &&& final(self).cipher_of() matches Some(c)
                &&& c.source() == default_alphabet()
                &&& c.target().to_multiset() == default_alphabet().to_multiset()
                &&& c.mapping() == pairing(lowercase_of(c.source()), lowercase_of(c.target()))
            },
            final(self).stage_of() is Data && !(old(self).stage_of() is Data)
                ==> final(self).data_of() == Seq::<char>::empty(),
            old(self).stage_of() is Data && final(self).stage_of() is Data ==> {
                &&& final(self).data_of() == old(self).data_of() + line@
                &&& final(self).cipher_of() == old(self).cipher_of()
            },
            final(self).stage_of() == Stage::Done ==> exists|o: Seq<char>|
                #[trigger] old(self).ends_with(line@, a, o),
            final(self).stage_of() != Stage::Done ==> {
                ||| a matches Action::Ask(t) && t@ == shown(old(self).stage_of(), line@)
                ||| a matches Action::Open(_, t) && t@ == shown(old(self).stage_of(), line@)
            },
            old(self).stage_of() is FileName ==> (a is Open <==> file_named(line@) is Some),
            a matches Action::Open(n, _) ==> final(self).file_of() == Some(n@),
    {
        match self.stage {
            Stage::Choose => match parse_mode(line) {
                Some(m) => {
                    self.stage = Stage::FileName(m);
                    Action::Ask(
                        String::from_str("Input name for text file... Or 'no' to not use a file"),
                    )
                },
                None => Action::Ask(String::from_str("Invalid option... Try again\nEncode or Decode?")),
            },
            Stage::FileName(m) => {
                let next = match m {
                    Mode::Encode => {
                        self.stage = Stage::OwnKey;
                        "Would you like to insert your own key?"
                    },
                    Mode::Decode => {
                        self.stage = Stage::Key(Mode::Decode);
                        "Input key (format: abc=xyz)"
                    },
                };
                match parse_file_name(line) {
                    Some(name) => {
                        self.file = Some(name.clone());
                        Action::Open(name, String::from_str(next))
                    },
                    None => {
                        self.file = None;
                        Action::Ask(String::from_str(next))
                    },
                }
            },
            Stage::OwnKey => {
                let low = to_lower(line);
                let w = trim_end(low.as_str());
                if is_word(w, "no") || is_word(w, "n") {
                    let alphabet = "abcdefghijklmnopqrstuvwxyz";
                    let target = scramble(alphabet);
                    match Cipher::new(alphabet, target.as_str()) {
                        Ok(c) => {
                            self.cipher = Some(c);
                            self.stage = Stage::Data(Mode::Encode);
                            self.data = String::new();
                            Action::Ask(
                                String::from_str(
                                    "Input data for encryption... Press enter twice to finish",
                                ),
                            )
                        },
                        Err(_) => {
                            assert(false);
                            Action::Ask(String::new())
                        },
                    }
                } else if is_word(w, "yes") || is_word(w, "y") {
                    self.stage = Stage::Key(Mode::Encode);
                    Action::Ask(String::from_str("Input key (format: abc=xyz)"))
                } else {
                    Action::Ask(
                        String::from_str(
                            "Invalid option... Try again\nWould you like to insert your own key?",
                        ),
                    )
                }
            },
            Stage::Key(m) => {
                let retry = match m {
                    Mode::Encode => "Would you like to insert your own key?",
                    Mode::Decode => "Input key (format: abc=xyz)",
                };
                let back = match m {
                    Mode::Encode => Stage::OwnKey,
                    Mode::Decode => Stage::Key(Mode::Decode),
                };
                match parse_key(trim(line)) {
                    None => {
                        self.stage = back;
                        Action::Ask(String::from_str("Key error: no '=' in key\n").concat(retry))
                    },
                    Some(p) => match Cipher::new(p.0.as_str(), p.1.as_str()) {
                        Ok(c) => {
                            self.cipher = Some(c);
                            self.stage = Stage::Data(m);
                            self.data = String::new();
                            let prompt = match m {
                                Mode::Encode => "Input data for encryption... Press enter twice to finish",
                                Mode::Decode => "Input encoded data... Press enter twice to finish",
                            };
                            Action::Ask(String::from_str(prompt))
                        },
                        Err(_) => {
                            self.stage = back;
                            Action::Ask(
                                String::from_str("Key error: unequal lengths\n").concat(retry),
                            )
                        },
                    },
                }
            },
            Stage::Data(m) => {
                let ghost before = *self;
                self.data.append(line);
                if input_complete(self.data.as_str()) {
                    self.stage = Stage::Done;
                    let input = trim(self.data.as_str());
                    match &self.cipher {
                        Some(c) => {
                            let out = match m {
                                Mode::Encode => c.encode(input),
                                Mode::Decode => c.decode(input),
                            };
                            let a = match &self.file {
                                Some(f) => Action::Save(f.clone(), c.transcript(input, out.as_str())),
                                None => Action::Show(c.report(m, input, out.as_str())),
                            };
                            assert(before.ends_with(line@, a, out@));
                            a
                        },
                        None => {
                            assert(false);
                            Action::Ask(String::new())
                        },
                    }
                } else {
                    Action::Ask(String::new())
                }
            },
            Stage::Done => {
                assert(false);
                Action::Ask(String::new())
            },
        }
    }

    /// Where the session stands.
    pub fn stage(&self) -> (r: Stage)
        ensures
            r == self.stage_of(),
    {
        self.stage
    }
}

} // verus!
