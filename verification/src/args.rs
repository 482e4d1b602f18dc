//! What was typed at the prompt, split into words.
use vstd::prelude::*;

use crate::text;

verus! {

/// What happens at the prompt.
#[derive(Clone, Copy, Debug, PartialEq, Eq, Structural)]
pub enum PromptEvent {
    /// The input has changed.
    Update,
    /// The input is confirmed.
    Validate,
    /// The prompt is closed without confirmation.
    Abort,
}

/// One argument of a command.
#[derive(Debug, PartialEq, Eq)]
pub struct Word {
    /// The argument itself, without its quotes.
    pub text: String,
    /// What is left of the argument text behind it.
    pub tail: String,
    /// The argument read as a path: its components.
    pub path: Vec<String>,
}

/// The arguments of a command, and how many of them have been taken.
#[derive(Debug, PartialEq, Eq)]
pub struct Args {
    /// The argument text exactly as it was typed.
    pub raw: String,
    /// All arguments.
    pub words: Vec<Word>,
    /// How many arguments have been taken.
    pub taken: usize,
}

/// One argument of a command, as a mathematical value.
#[verifier::ext_equal]
pub struct WordView {
    /// The argument itself, without its quotes.
    pub text: Seq<char>,
    /// What is left of the argument text behind it.
    pub tail: Seq<char>,
    /// The argument read as a path: its components.
    pub path: Seq<Seq<char>>,
}

impl View for Word {
    type V = WordView;

    open spec fn view(&self) -> WordView {
        WordView { text: self.text@, tail: self.tail@, path: text::views(self.path@) }
    }
}

/// The arguments of a command, as a mathematical value.
#[verifier::ext_equal]
pub struct ArgsView {
    /// The argument text exactly as it was typed.
    pub raw: Seq<char>,
    /// All arguments.
    pub words: Seq<WordView>,
    /// How many arguments have been taken.
    pub taken: nat,
}

impl ArgsView {
    /// No more arguments have been taken than there are.
    pub open spec fn wf(self) -> bool {
        self.taken <= self.words.len()
    }

    /// No arguments.
    pub open spec fn none() -> ArgsView {
        ArgsView { raw: Seq::empty(), words: Seq::empty(), taken: 0 }
    }

    /// A single argument, which is the whole argument text.
    pub open spec fn one(text: Seq<char>) -> ArgsView {
        let word = WordView { text, tail: Seq::empty(), path: Seq::empty() };
        ArgsView { raw: text, words: seq![word], taken: 0 }
    }

    /// Whether nothing was typed behind the command.
    pub open spec fn is_empty(self) -> bool {
        self.raw.len() == 0
    }

    /// The arguments that have not been taken yet.
    pub open spec fn left(self) -> Seq<WordView> {
        self.words.skip(self.taken as int)
    }

    /// The next argument, if there is one.
    pub open spec fn next(self) -> Option<Seq<char>> {
        if self.taken < self.words.len() {
            Some(self.words[self.taken as int].text)
        } else {
            None
        }
    }

    /// The arguments with one more of them taken, if there is one.
    pub open spec fn advanced(self) -> ArgsView {
        if self.taken < self.words.len() {
            ArgsView { taken: self.taken + 1, ..self }
        } else {
            self
        }
    }

    /// The argument text behind the arguments that have been taken.
    pub open spec fn rest(self) -> Seq<char> {
        if self.taken == 0 {
            self.raw
        } else {
            self.words[self.taken - 1].tail
        }
    }
}

/// The arguments themselves, without what belongs to them.
pub open spec fn texts(words: Seq<WordView>) -> Seq<Seq<char>> {
    words.map_values(|w: WordView| w.text)
}

impl View for Args {
    type V = ArgsView;

    open spec fn view(&self) -> ArgsView {
        ArgsView {
            raw: self.raw@,
            words: self.words@.map_values(|w: Word| w@),
            taken: self.taken as nat,
        }
    }
}

impl Args {
    /// No arguments.
    pub fn empty() -> (r: Args)
        ensures
            r@ == ArgsView::none(),
    {
        Args { raw: String::new(), words: Vec::new(), taken: 0 }
    }

    /// A single argument, which is the whole argument text.
    pub fn single(text: &str) -> (r: Args)
        ensures
            r@ == ArgsView::one(text@),
    {
        let word = Word { text: text.to_owned(), tail: String::new(), path: Vec::new() };
        assert(word@ == (WordView { text: text@, tail: Seq::empty(), path: Seq::empty() }));
        Args { raw: text.to_owned(), words: vec![word], taken: 0 }
    }

    /// Whether nothing was typed behind the command.
    pub fn is_empty(&self) -> (r: bool)
        ensures
            r == self@.is_empty(),
    {
        self.raw.as_str().is_empty()
    }

    /// The argument text exactly as it was typed.
    pub fn raw(&self) -> (r: &str)
        ensures
            r@ == self@.raw,
    {
        self.raw.as_str()
    }

    /// How many arguments there are, those that have been taken included.
    pub fn arg_count(&self) -> (r: usize)
        ensures
            r == self@.words.len(),
    {
        self.words.len()
    }

    /// What is left of the argument text.
    pub fn rest(&self) -> (r: &str)
        requires
            self@.wf(),
        ensures
            r@ == self@.rest(),
    {
        if self.taken == 0 {
            self.raw.as_str()
        } else {
            self.words[self.taken - 1].tail.as_str()
        }
    }

    /// Takes the next argument.
    pub fn next(&mut self) -> (r: Option<String>)
        ensures
            match r {
                Some(text) => old(self)@.next() == Some(text@),
                None => old(self)@.next() is None,
            },
            final(self)@ == old(self)@.advanced(),
    {
        if self.taken < self.words.len() {
            let text = self.words[self.taken].text.clone();
            self.taken = self.taken + 1;
            Some(text)
        } else {
            None
        }
    }

    /// The arguments that have not been taken yet.
    pub fn remaining(&self) -> (r: Vec<String>)
        requires
            self@.wf(),
        ensures
            text::views(r@) == texts(self@.left()),
    {
        let mut out: Vec<String> = Vec::new();
        let mut i: usize = self.taken;
        while i < self.words.len()
            invariant
                self.taken <= i <= self.words.len(),
                out.len() == i - self.taken,
                forall|j: int|
                    0 <= j < out.len() ==> (#[trigger] out@[j])@ == self.words@[self.taken
                        + j].text@,
            decreases self.words.len() - i,
        {
            out.push(self.words[i].text.clone());
            i = i + 1;
        }
        assert(text::views(out@) =~= texts(self@.left()));
        out
    }

    /// The same arguments, once more.
    pub fn copy(&self) -> (r: Args)
        ensures
            r@ == self@,
    {
        let mut words: Vec<Word> = Vec::new();
        let mut i: usize = 0;
        while i < self.words.len()
            invariant
                i <= self.words.len(),
                words.len() == i,
                forall|j: int| 0 <= j < i ==> (#[trigger] words@[j])@ == self.words@[j]@,
            decreases self.words.len() - i,
        {
            let word = &self.words[i];
            let path = copy_texts(&word.path);
            words.push(Word { text: word.text.clone(), tail: word.tail.clone(), path });
            i = i + 1;
        }
        let copy = Args { raw: self.raw.clone(), words, taken: self.taken };
        assert(copy@.words =~= self@.words);
        copy
    }
}

/// Copies a list of texts.
pub(crate) fn copy_texts(texts: &Vec<String>) -> (r: Vec<String>)
    ensures
        text::views(r@) == text::views(texts@),
{
    let mut out: Vec<String> = Vec::new();
    let mut i: usize = 0;
    while i < texts.len()
        invariant
            i <= texts.len(),
            out.len() == i,
            forall|j: int| 0 <= j < i ==> (#[trigger] out@[j])@ == texts@[j]@,
        decreases texts.len() - i,
    {
        out.push(texts[i].clone());
        i = i + 1;
    }
    assert(text::views(out@) =~= text::views(texts@));
    out
}

/// A whole line of input: a command and its arguments.
#[derive(Debug, PartialEq, Eq)]
pub struct Shellwords {
    /// The line as it was typed.
    pub input: String,
    /// The word that names the command.
    pub command: String,
    /// The arguments, none of them taken.
    pub args: Args,
    /// Whether the line ends with white space.
    pub ends_with_whitespace: bool,
}

/// The number of the argument that is being typed: the last one, or the next one when white
/// space has been typed behind the last.
pub open spec fn argument_number(arg_count: nat, ends_with_whitespace: bool) -> nat {
    if ends_with_whitespace {
        arg_count
    } else if arg_count > 0 {
        (arg_count - 1) as nat
    } else {
        0
    }
}

/// The number, from zero, of the argument at the end of the line.
pub fn argument_number_of(shellwords: &Shellwords) -> (r: usize)
    ensures
        r == argument_number(shellwords.args@.words.len(), shellwords.ends_with_whitespace),
{
    let typed_ahead: usize = if shellwords.ends_with_whitespace { 1 } else { 0 };
    shellwords.args.arg_count().saturating_sub(1 - typed_ahead)
}

/// The arguments are handed out one after the other, each once, and what is left behind them is
/// what was typed behind the last one handed out.
pub proof fn lemma_handed_out(args: ArgsView)
    requires
        args.wf(),
    ensures
        args.taken == 0 ==> args.rest() == args.raw,
        args.taken == args.words.len() ==> args.next() is None && args.advanced() == args,
        args.taken < args.words.len() ==> {
            &&& args.next() == Some(args.words[args.taken as int].text)
            &&& args.advanced().taken == args.taken + 1
            &&& args.advanced().words == args.words && args.advanced().raw == args.raw
            &&& args.advanced().rest() == args.words[args.taken as int].tail
            &&& args.left() == seq![args.words[args.taken as int]] + args.advanced().left()
        },
        args.left().len() == args.words.len() - args.taken,
{
    if args.taken < args.words.len() {
        assert(args.left() =~= seq![args.words[args.taken as int]] + args.advanced().left());
    }
}

/// Behind white space a new argument begins; otherwise the last one is still being typed.
pub proof fn lemma_argument_number(arg_count: nat)
    ensures
        argument_number(arg_count, true) == arg_count,
        argument_number(arg_count + 1, false) == argument_number(arg_count, true),
        argument_number(0, false) == 0,
{
}

/// The view of arguments tells all of them: what was typed, each word with what is behind it, and
/// how many have been handed out.
pub proof fn lemma_args_views_tell(args: Args, i: int)
    ensures
        args@.raw == args.raw@,
        args@.taken == args.taken,
        args@.words.len() == args.words.len(),
        0 <= i < args.words.len() ==> args@.words[i].text == args.words[i].text@
            && args@.words[i].tail == args.words[i].tail@ && args@.words[i].path == text::views(
            args.words[i].path@,
        ),
{
}

} // verus!
