use vstd::prelude::*;

use vstd::string::StringSliceAdditionalSpecFns;

use crate::transform::Transform;

verus! {

/// A small token type that several of the ready-made transforms below
/// translate to and from text.
#[derive(Clone, Copy, PartialEq, Eq, Structural, Debug)]
pub enum SomeInput {
    First,
    Second,
}

/// Turns a token into its configured text: `First` becomes the first
/// text, `Second` the second.
pub struct EnumText {
    pub first_text: String,
    pub second_text: String,
}

impl EnumText {
    /// The conventional wording: "first" and "second".
    pub fn new() -> (transform: Self)
        ensures
            transform.first_text@ == "first"@,
            transform.second_text@ == "second"@,
    {
        EnumText { first_text: "first".to_owned(), second_text: "second".to_owned() }
    }
}

impl Transform for EnumText {
    type Input = SomeInput;

    type Output = String;

    open spec fn step_spec(self, input: Option<SomeInput>) -> Self {
        self
    }

    open spec fn output_spec(self, input: Option<SomeInput>) -> Option<String> {
        match input {
            Some(SomeInput::First) => Some(self.first_text),
            Some(SomeInput::Second) => Some(self.second_text),
            None => None,
        }
    }

    open spec fn charge(self) -> nat {
        0
    }

    proof fn barren_continuation_is_pure(self) {
    }

    proof fn continuation_spends_charge(self) {
    }

    fn apply(&mut self, input: Option<SomeInput>) -> (produced: Option<String>) {
        match input {
            Some(SomeInput::First) => Some(self.first_text.clone()),
            Some(SomeInput::Second) => Some(self.second_text.clone()),
            None => None,
        }
    }
}

/// Turns text back into a token: the configured first text gives `First`,
/// the second gives `Second`, and anything else is dropped as malformed.
pub struct TextEnum {
    pub first_text: String,
    pub second_text: String,
}

impl TextEnum {
    /// The conventional wording: "first" and "second".
    pub fn new() -> (transform: Self)
        ensures
            transform.first_text@ == "first"@,
            transform.second_text@ == "second"@,
    {
        TextEnum { first_text: "first".to_owned(), second_text: "second".to_owned() }
    }
}

impl Transform for TextEnum {
    type Input = String;

    type Output = SomeInput;

    open spec fn step_spec(self, input: Option<String>) -> Self {
        self
    }

    open spec fn output_spec(self, input: Option<String>) -> Option<SomeInput> {
        match input {
            Some(text) => {
                if text@ == self.first_text@ {
                    Some(SomeInput::First)
                } else if text@ == self.second_text@ {
                    Some(SomeInput::Second)
                } else {
                    None
                }
            },
            None => None,
        }
    }

    open spec fn charge(self) -> nat {
        0
    }

    proof fn barren_continuation_is_pure(self) {
    }

    proof fn continuation_spends_charge(self) {
    }

    fn apply(&mut self, input: Option<String>) -> (produced: Option<SomeInput>) {
        match input {
            Some(text) => {
                if text == self.first_text {
                    Some(SomeInput::First)
                } else if text == self.second_text {
                    Some(SomeInput::Second)
                } else {
                    None
                }
            },
            None => None,
        }
    }
}

/// Answers every input with one fixed text from its configuration.
pub struct FixedText {
    pub text: String,
}

impl Transform for FixedText {
    type Input = ();

    type Output = String;

    open spec fn step_spec(self, input: Option<()>) -> Self {
        self
    }

    open spec fn output_spec(self, input: Option<()>) -> Option<String> {
        match input {
            Some(_) => Some(self.text),
            None => None,
        }
    }

    open spec fn charge(self) -> nat {
        0
    }

    proof fn barren_continuation_is_pure(self) {
    }

    proof fn continuation_spends_charge(self) {
    }

    fn apply(&mut self, input: Option<()>) -> (produced: Option<String>) {
        match input {
            Some(_) => Some(self.text.clone()),
            None => None,
        }
    }
}

/// Scores a line of text: one for the configured pattern, two for
/// anything else.
pub struct TextNumber {
    pub pattern: String,
}

impl Transform for TextNumber {
    type Input = &'static str;

    type Output = i32;

    open spec fn step_spec(self, input: Option<&'static str>) -> Self {
        self
    }

    open spec fn output_spec(self, input: Option<&'static str>) -> Option<i32> {
        match input {
            Some(text) => {
                if text@ == self.pattern@ {
                    Some(1i32)
                } else {
                    Some(2i32)
                }
            },
            None => None,
        }
    }

    open spec fn charge(self) -> nat {
        0
    }

    proof fn barren_continuation_is_pure(self) {
    }

    proof fn continuation_spends_charge(self) {
    }

    fn apply(&mut self, input: Option<&'static str>) -> (produced: Option<i32>) {
        match input {
            Some(text) => {
                if text.to_owned() == self.pattern {
                    Some(1)
                } else {
                    Some(2)
                }
            },
            None => None,
        }
    }
}

/// Swallows lines, counting them, and reports zero for each: the shape of
/// a sink whose real work (say, printing) lies outside the pipeline.
pub struct TextTally {
    pub seen: u64,
}

impl Transform for TextTally {
    type Input = &'static str;

    type Output = i32;

    open spec fn step_spec(self, input: Option<&'static str>) -> Self {
        match input {
            Some(_) => {
                if self.seen < u64::MAX {
                    TextTally { seen: (self.seen + 1) as u64 }
                } else {
                    self
                }
            },
            None => self,
        }
    }

    open spec fn output_spec(self, input: Option<&'static str>) -> Option<i32> {
        match input {
            Some(_) => Some(0i32),
            None => None,
        }
    }

    open spec fn charge(self) -> nat {
        0
    }

    proof fn barren_continuation_is_pure(self) {
    }

    proof fn continuation_spends_charge(self) {
    }

    fn apply(&mut self, input: Option<&'static str>) -> (produced: Option<i32>) {
        match input {
            Some(_) => {
                if self.seen < u64::MAX {
                    self.seen = self.seen + 1;
                }
                Some(0)
            },
            None => None,
        }
    }
}

/// Whether a line is shouted: non-empty, with no ASCII lowercase letter.
pub open spec fn spec_shouted(bytes: Seq<u8>) -> bool {
    bytes.len() > 0 && forall|i: int| 0 <= i < bytes.len() ==> !(97 <= #[trigger] bytes[i] <= 122)
}

/// Decides whether each line is shouted, in the sense of
/// [`spec_shouted`].
#[derive(Clone, Copy)]
pub struct CaseProbe {
}

/// The check behind [`CaseProbe`], as a plain verified scan.
pub fn is_shouted(text: &str) -> (shouted: bool)
    ensures
        shouted == spec_shouted(text.spec_bytes()),
{
    let bytes = text.as_bytes();
    let n = bytes.len();
    if n == 0 {
        return false;
    }
    let mut i: usize = 0;
    while i < n
        invariant
            i <= n,
            n == bytes@.len(),
            bytes@ == text.spec_bytes(),
            forall|j: int| 0 <= j < i ==> !(97 <= #[trigger] bytes@[j] <= 122),
        decreases n - i,
    {
        let b = bytes[i];
        if 97 <= b && b <= 122 {
            return false;
        }
        i += 1;
    }
    true
}

impl Transform for CaseProbe {
    type Input = &'static str;

    type Output = bool;

    open spec fn step_spec(self, input: Option<&'static str>) -> Self {
        self
    }

    open spec fn output_spec(self, input: Option<&'static str>) -> Option<bool> {
        match input {
            Some(text) => Some(spec_shouted(text.spec_bytes())),
            None => None,
        }
    }

    open spec fn charge(self) -> nat {
        0
    }

    proof fn barren_continuation_is_pure(self) {
    }

    proof fn continuation_spends_charge(self) {
    }

    fn apply(&mut self, input: Option<&'static str>) -> (produced: Option<bool>) {
        match input {
            Some(text) => Some(is_shouted(text)),
            None => None,
        }
    }
}

/// Streams the lines of one configured source, as a file reader would: a
/// pushed path activates it, and each continuation call then hands out the
/// next line until the source is spent. The one stateful transform here,
/// and the reason stages try a continuation call first.
pub struct LineSource {
    pub lines: Vec<String>,
    pub next: usize,
    pub active: bool,
}

impl LineSource {
    /// A source that will stream `lines` once a path is pushed.
    pub fn new(lines: Vec<String>) -> (transform: Self)
        ensures
            transform == (LineSource { lines, next: 0usize, active: false }),
    {
        LineSource { lines, next: 0, active: false }
    }
}

impl Transform for LineSource {
    type Input = String;

    type Output = String;

    open spec fn step_spec(self, input: Option<String>) -> Self {
        if self.active && self.next < self.lines@.len() {
            LineSource { next: (self.next + 1) as usize, ..self }
        } else {
            match input {
                Some(_) => {
                    if self.lines@.len() > 0 {
                        LineSource { next: 1usize, active: true, ..self }
                    } else {
                        LineSource { next: 0usize, active: true, ..self }
                    }
                },
                None => self,
            }
        }
    }

    open spec fn output_spec(self, input: Option<String>) -> Option<String> {
        if self.active && self.next < self.lines@.len() {
            Some(self.lines@[self.next as int])
        } else {
            match input {
                Some(_) => {
                    if self.lines@.len() > 0 {
                        Some(self.lines@[0])
                    } else {
                        None
                    }
                },
                None => None,
            }
        }
    }

    open spec fn charge(self) -> nat {
        if self.active && self.next < self.lines@.len() {
            (self.lines@.len() - self.next) as nat
        } else {
            0
        }
    }

    proof fn barren_continuation_is_pure(self) {
    }

    proof fn continuation_spends_charge(self) {
        if self.output_spec(None) is Some {
            assert(self.lines.len() == self.lines@.len());
        }
    }

    fn apply(&mut self, input: Option<String>) -> (produced: Option<String>) {
        if self.active && self.next < self.lines.len() {
            let line = self.lines[self.next].clone();
            self.next = self.next + 1;
            Some(line)
        } else {
            match input {
                Some(_) => {
                    self.active = true;
                    if self.lines.len() > 0 {
                        self.next = 1;
                        Some(self.lines[0].clone())
                    } else {
                        self.next = 0;
                        None
                    }
                },
                None => None,
            }
        }
    }
}

/// Counts the records that reach it and reports the running count: the
/// sink at the end of a pipeline.
pub struct EnumTally {
    pub seen: u64,
}

impl Transform for EnumTally {
    type Input = SomeInput;

    type Output = u64;

    open spec fn step_spec(self, input: Option<SomeInput>) -> Self {
        match input {
            Some(_) => {
                if self.seen < u64::MAX {
                    EnumTally { seen: (self.seen + 1) as u64 }
                } else {
                    self
                }
            },
            None => self,
        }
    }

    open spec fn output_spec(self, input: Option<SomeInput>) -> Option<u64> {
        match input {
            Some(_) => {
                if self.seen < u64::MAX {
                    Some((self.seen + 1) as u64)
                } else {
                    Some(self.seen)
                }
            },
            None => None,
        }
    }

    open spec fn charge(self) -> nat {
        0
    }

    proof fn barren_continuation_is_pure(self) {
    }

    proof fn continuation_spends_charge(self) {
    }

    fn apply(&mut self, input: Option<SomeInput>) -> (produced: Option<u64>) {
        match input {
            Some(_) => {
                if self.seen < u64::MAX {
                    self.seen = self.seen + 1;
                }
                Some(self.seen)
            },
            None => None,
        }
    }
}

} // verus!
