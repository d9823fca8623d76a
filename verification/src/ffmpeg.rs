//! The command line of the renderer, as a list of arguments.

use vstd::prelude::*;
use crate::chars::{push_str, string_of, texts_of};

verus! {

/// A call of the renderer: the arguments behind the program's name.
#[derive(Clone, Debug)]
pub struct FFMpegCommand {
    arguments: Vec<String>,
}

impl View for FFMpegCommand {
    type V = Seq<Seq<char>>;

    /// The arguments, in order.
    closed spec fn view(&self) -> Seq<Seq<char>> {
        texts_of(self.arguments@)
    }
}

/// The arguments a command starts with: `-y` where an existing output file
/// may be replaced, otherwise none.
pub open spec fn first_arguments(overwrite: bool) -> Seq<Seq<char>> {
    if overwrite {
        seq!["-y"@]
    } else {
        Seq::empty()
    }
}

/// The line that shows a command: the program's name and the arguments,
/// one space before each argument.
pub open spec fn command_line(arguments: Seq<Seq<char>>) -> Seq<char>
    decreases arguments.len(),
{
    if arguments.len() == 0 {
        "ffmpeg "@
    } else if arguments.len() == 1 {
        "ffmpeg "@ + arguments[0]
    } else {
        command_line(arguments.drop_last()) + " "@ + arguments.last()
    }
}

impl FFMpegCommand {
    /// Starts a command.
    pub fn new(overwrite: bool) -> (out: Self)
        ensures
            out@ == first_arguments(overwrite),
    {
        let mut arguments: Vec<String> = Vec::new();
        if overwrite {
            arguments.push("-y".to_owned());
            assert(texts_of(arguments@) =~= seq!["-y"@]);
        } else {
            assert(texts_of(arguments@) =~= Seq::<Seq<char>>::empty());
        }
        FFMpegCommand { arguments }
    }

    /// Adds one argument.
    pub fn arg(&mut self, arg: &str)
        ensures
            final(self)@ == old(self)@.push(arg@),
    {
        self.arguments.push(arg.to_owned());
        assert(texts_of(self.arguments@) =~= texts_of(old(self).arguments@).push(arg@));
    }

    /// Adds arguments, in their order.
    pub fn args(&mut self, args: &[&str])
        ensures
            final(self)@ == old(self)@ + Seq::new(args@.len(), |i: int| args@[i]@),
    {
        let mut i: usize = 0;
        assert(self@ =~= old(self)@ + Seq::new(args@.len(), |k: int| args@[k]@).take(0));
        while i < args.len()
            invariant
                i <= args.len(),
                self@ == old(self)@ + Seq::new(args@.len(), |k: int| args@[k]@).take(i as int),
            decreases args.len() - i,
        {
            let ghost before = self@;
            self.arg(args[i]);
            i += 1;
            assert(self@ =~= old(self)@ + Seq::new(args@.len(), |k: int| args@[k]@).take(
                i as int,
            ));
        }
        assert(Seq::new(args@.len(), |k: int| args@[k]@).take(i as int) =~= Seq::new(
            args@.len(),
            |k: int| args@[k]@,
        ));
    }

    /// The arguments, for the call of the program.
    pub fn arguments(&self) -> (out: Vec<String>)
        ensures
            texts_of(out@) == self@,
    {
        let mut out: Vec<String> = Vec::new();
        let mut i: usize = 0;
        while i < self.arguments.len()
            invariant
                i <= self.arguments.len(),
                texts_of(out@) == texts_of(self.arguments@).take(i as int),
            decreases self.arguments.len() - i,
        {
            let ghost before = texts_of(out@);
            let item = self.arguments[i].clone();
            assert(item@ == self.arguments@[i as int]@);
            out.push(item);
            i += 1;
            assert(texts_of(out@) =~= before.push(item@));
            assert(texts_of(out@) =~= texts_of(self.arguments@).take(i as int));
        }
        assert(texts_of(self.arguments@).take(i as int) =~= texts_of(self.arguments@));
        out
    }

    /// The full command as one line, to be shown.
    pub fn show_command(&self) -> (out: String)
        ensures
            out@ == command_line(self@),
    {
        let mut line: Vec<char> = Vec::new();
        push_str(&mut line, "ffmpeg ");
        let mut i: usize = 0;
        while i < self.arguments.len()
            invariant
                i <= self.arguments.len(),
                line@ == command_line(texts_of(self.arguments@).take(i as int)),
            decreases self.arguments.len() - i,
        {
            proof {
                assert(texts_of(self.arguments@).take(i + 1).drop_last() =~= texts_of(
                    self.arguments@,
                ).take(i as int));
                reveal_strlit(" ");
            }
            if i > 0 {
                push_str(&mut line, " ");
            }
            push_str(&mut line, self.arguments[i].as_str());
            i += 1;
            assert(line@ =~= command_line(texts_of(self.arguments@).take(i as int)));
        }
        assert(texts_of(self.arguments@).take(i as int) =~= texts_of(self.arguments@));
        string_of(&line)
    }
}

} // verus!
