//! A command that is ready to run: its argument vector and the line it is
//! reported under.

use vstd::prelude::*;
use vstd::string::*;

verus! {

/// The words after the first, each behind a separator.
pub open spec fn join_rest(words: Seq<Seq<char>>, separator: Seq<char>) -> Seq<char>
    decreases words.len(),
{
    if words.len() == 0 {
        Seq::empty()
    } else {
        separator + words[0] + join_rest(words.drop_first(), separator)
    }
}

/// The words in a row with the separator between each two.
pub open spec fn join(words: Seq<Seq<char>>, separator: Seq<char>) -> Seq<char> {
    if words.len() == 0 {
        Seq::empty()
    } else {
        words[0] + join_rest(words.drop_first(), separator)
    }
}

/// The texts of a vector of strings.
pub open spec fn texts(words: Seq<String>) -> Seq<Seq<char>> {
    words.map_values(|word: String| word@)
}

/// Writes the words in a row with a space between each two.
pub fn join_words(words: &Vec<String>) -> (line: String)
    ensures
        line@ == join(texts(words@), seq![' ']),
{
    let mut line = String::new();
    if words.len() == 0 {
        return line;
    }
    line.append(words[0].as_str());
    proof {
        assert(line@ =~= texts(words@)[0]);
        assert(texts(words@).drop_first() =~= texts(words@).skip(1));
        reveal_strlit(" ");
        assert(" "@ =~= seq![' ']);
    }
    let mut i: usize = 1;
    while i < words.len()
        invariant
            1 <= i <= words.len(),
            " "@ == seq![' '],
            join(texts(words@), seq![' ']) == line@ + join_rest(
                texts(words@).skip(i as int),
                seq![' '],
            ),
        decreases words.len() - i,
    {
        proof {
            let rest = texts(words@).skip(i as int);
            assert(rest[0] == words@[i as int]@);
            assert(rest.drop_first() =~= texts(words@).skip(i + 1));
            assert(line@ + (seq![' '] + rest[0] + join_rest(rest.drop_first(), seq![' '])) =~= line@
                + seq![' '] + rest[0] + join_rest(rest.drop_first(), seq![' ']));
        }
        line.append(" ");
        line.append(words[i].as_str());
        i += 1;
    }
    proof {
        assert(texts(words@).skip(i as int).len() == 0);
        assert(line@ + Seq::<char>::empty() =~= line@);
    }
    line
}

/// A command with its arguments, each a word of its own, and the line that
/// stands for it in reports.
#[derive(Debug, PartialEq, Eq)]
pub struct ShellCommand {
    pub line: String,
    pub argv: Vec<String>,
}

impl ShellCommand {
    /// The command of an argument vector, reported under `line`.
    pub fn new(line: String, argv: Vec<String>) -> (command: ShellCommand)
        ensures
            command.line == line,
            command.argv == argv,
    {
        ShellCommand { line, argv }
    }

    /// The command of an argument vector, reported under the arguments
    /// joined by spaces.
    pub fn from_argv(argv: Vec<String>) -> (command: ShellCommand)
        ensures
            command.argv == argv,
            command.line@ == join(texts(argv@), seq![' ']),
    {
        let line = join_words(&argv);
        ShellCommand { line, argv }
    }
}

} // verus!
