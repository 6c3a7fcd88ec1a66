//! A program run with arguments.

use vstd::prelude::*;

use crate::text::{append_str, copy_str, push_char};

verus! {

/// A program, its arguments, and the directory to run it in.
#[derive(Clone, Debug, Eq, PartialEq)]
pub struct CommandInvocation {
    pub arguments: Vec<String>,
    pub cwd: Option<String>,
    pub program: String,
}

/// The words joined by single spaces.
pub open spec fn spaced(words: Seq<Seq<char>>) -> Seq<char>
    decreases words.len(),
{
    if words.len() == 0 {
        Seq::<char>::empty()
    } else if words.len() == 1 {
        words[0]
    } else {
        spaced(words.drop_last()).push(' ') + words.last()
    }
}

/// How an invocation is written: the program, then its arguments, separated
/// by spaces.
pub open spec fn invocation_line(program: Seq<char>, arguments: Seq<Seq<char>>) -> Seq<char> {
    if arguments.len() == 0 {
        program
    } else {
        program.push(' ') + spaced(arguments)
    }
}

impl CommandInvocation {
    /// The invocation as a command line.
    pub fn to_display_string(&self) -> (r: String)
        ensures
            r@ == invocation_line(
                self.program@,
                self.arguments@.map_values(|a: String| a@),
            ),
    {
        let mut r = copy_str(self.program.as_str());
        let n = self.arguments.len();
        if n == 0 {
            return r;
        }
        let ghost words = self.arguments@.map_values(|a: String| a@);
        push_char(&mut r, ' ');
        let ghost head = r@;
        for i in 0..n
            invariant
                n == words.len(),
                n > 0,
                words == self.arguments@.map_values(|a: String| a@),
                head == self.program@.push(' '),
                i == 0 ==> r@ == head,
                i > 0 ==> r@ == head + spaced(words.take(i as int)),
        {
            if i > 0 {
                push_char(&mut r, ' ');
            }
            append_str(&mut r, self.arguments[i].as_str());
            proof {
                let t = words.take(i + 1);
                assert(t.drop_last() =~= words.take(i as int));
                assert(t.last() == self.arguments@[i as int]@);
                if i == 0 {
                    assert(t.len() == 1);
                    assert(r@ =~= head + spaced(t));
                } else {
                    assert(r@ =~= head + spaced(t));
                }
            }
        }
        assert(words.take(n as int) =~= words);
        r
    }
}

} // verus!
