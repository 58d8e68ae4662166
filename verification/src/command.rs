//! The command-line template: its grammar, and how a template and its
//! arguments become an argument vector.
//!
//! A template is a run of tokens separated by blanks. A token is made of
//! parts that follow each other without a gap: bare text, text in double
//! quotes, the placeholder `{}` for the next argument, and `$NAME` for an
//! environment variable.

use crate::result::VarError;
use crate::shell_command::{join, texts, ShellCommand};
use vstd::prelude::*;
use vstd::string::*;

verus! {

/// Whether `ch` can stand in bare text: anything but a control character, a
/// blank, and the characters the grammar or a shell gives a meaning to.
pub open spec fn spec_token_char(ch: char) -> bool {
    &&& ch as u32 > 0x20
    &&& ch != '\x7f'
    &&& ch != '"'
    &&& ch != '\''
    &&& ch != '>'
    &&& ch != '<'
    &&& ch != '|'
    &&& ch != ';'
    &&& ch != '{'
    &&& ch != '}'
    &&& ch != '$'
}

/// Whether `ch` can stand in the name of a variable: an ASCII letter, an
/// ASCII digit or the underscore.
pub open spec fn spec_var_char(ch: char) -> bool {
    ||| 'a' as u32 <= ch as u32 <= 'z' as u32
    ||| 'A' as u32 <= ch as u32 <= 'Z' as u32
    ||| '0' as u32 <= ch as u32 <= '9' as u32
    ||| ch == '_'
}

/// Whether `ch` separates tokens: a space, a tab, a carriage return or a
/// line feed.
pub open spec fn spec_blank(ch: char) -> bool {
    ch == ' ' || ch == '\t' || ch == '\r' || ch == '\n'
}

/// Whether `ch` can stand in bare text.
pub fn token_char(ch: char) -> (b: bool)
    ensures
        b == spec_token_char(ch),
{
    if ch as u32 <= 0x20 {
        false
    } else if ch == '\x7f' || ch == '"' || ch == '\'' || ch == '>' || ch == '<' || ch == '|' || ch
        == ';' || ch == '{' || ch == '}' || ch == '$' {
        false
    } else {
        true
    }
}

/// Whether `ch` can stand in the name of a variable.
pub fn var_char(ch: char) -> (b: bool)
    ensures
        b == spec_var_char(ch),
{
    let code: u32 = ch as u32;
    if 'a' as u32 <= code && code <= 'z' as u32 {
        true
    } else if 'A' as u32 <= code && code <= 'Z' as u32 {
        true
    } else if '0' as u32 <= code && code <= '9' as u32 {
        true
    } else {
        ch == '_'
    }
}

fn blank(ch: char) -> (b: bool)
    ensures
        b == spec_blank(ch),
{
    ch == ' ' || ch == '\t' || ch == '\r' || ch == '\n'
}

/// The classes of characters the grammar reads in runs.
#[derive(Debug, Clone, Copy, PartialEq, Eq, Structural)]
pub enum CharClass {
    /// The characters between tokens.
    Blank,
    /// The characters of bare text.
    Bare,
    /// The characters of a variable's name.
    Name,
    /// The characters between double quotes: all but the double quote.
    Quoted,
}

impl CharClass {
    /// Whether `ch` is of the class.
    pub open spec fn has(self, ch: char) -> bool {
        match self {
            CharClass::Blank => spec_blank(ch),
            CharClass::Bare => spec_token_char(ch),
            CharClass::Name => spec_var_char(ch),
            CharClass::Quoted => ch != '"',
        }
    }

    /// Whether `ch` is of the class.
    pub fn contains(self, ch: char) -> (b: bool)
        ensures
            b == self.has(ch),
    {
        match self {
            CharClass::Blank => blank(ch),
            CharClass::Bare => token_char(ch),
            CharClass::Name => var_char(ch),
            CharClass::Quoted => ch != '"',
        }
    }
}

/// One part of a token, as plain mathematics.
pub enum Part {
    /// Text that stands for itself.
    Bare(Seq<char>),
    /// The next argument.
    Placeholder,
    /// The value of the environment variable of this name.
    Variable(Seq<char>),
}

/// Where the run of `class` characters that starts at `i` ends: the first
/// position from `i` on that holds another character, or the end of `s`.
pub open spec fn run_end(s: Seq<char>, i: int, class: CharClass) -> int
    decreases s.len() - i,
{
    if 0 <= i < s.len() && class.has(s[i]) {
        run_end(s, i + 1, class)
    } else {
        i
    }
}

/// The part that starts at `i`, and where it ends. There are four kinds.
/// Bare text is the longest run of bare characters. Quoted text starts with
/// a double quote and runs up to the next one, which must exist; the quotes
/// are not part of the text. The placeholder is `{}`. A variable is `$` and
/// the longest run of name characters, which must not be empty. Anything
/// else is no part.
pub open spec fn part_at(s: Seq<char>, i: int) -> Option<(Part, int)> {
    if !(0 <= i < s.len()) {
        None
    } else if spec_token_char(s[i]) {
        let end = run_end(s, i, CharClass::Bare);
        Some((Part::Bare(s.subrange(i, end)), end))
    } else if s[i] == '"' {
        let close = run_end(s, i + 1, CharClass::Quoted);
        if close < s.len() {
            Some((Part::Bare(s.subrange(i + 1, close)), close + 1))
        } else {
            None
        }
    } else if s[i] == '{' {
        if i + 1 < s.len() && s[i + 1] == '}' {
            Some((Part::Placeholder, i + 2))
        } else {
            None
        }
    } else if s[i] == '$' {
        let end = run_end(s, i + 1, CharClass::Name);
        if end > i + 1 {
            Some((Part::Variable(s.subrange(i + 1, end)), end))
        } else {
            None
        }
    } else {
        None
    }
}

/// The parts that follow each other from `i` on without a gap, as many as
/// there are, and where the last one ends.
pub open spec fn parts_at(s: Seq<char>, i: int) -> (Seq<Part>, int)
    decreases s.len() - i,
{
    match part_at(s, i) {
        Some((part, next)) => if i < next <= s.len() {
            let (rest, end) = parts_at(s, next);
            (seq![part] + rest, end)
        } else {
            (Seq::empty(), i)
        },
        None => (Seq::empty(), i),
    }
}

/// The tokens from `i` on: blanks are skipped, and what follows them up to
/// the end of `s` must be tokens, each of at least one part.
pub open spec fn tokens_at(s: Seq<char>, i: int) -> Option<Seq<Seq<Part>>>
    decreases s.len() - i,
{
    let start = run_end(s, i, CharClass::Blank);
    if !(0 <= i <= start < s.len()) {
        Some(Seq::empty())
    } else {
        let (parts, end) = parts_at(s, start);
        if parts.len() == 0 || !(start < end <= s.len()) {
            None
        } else {
            match tokens_at(s, end) {
                Some(rest) => Some(seq![parts] + rest),
                None => None,
            }
        }
    }
}

/// The tokens of a template, or `None` where the text is no template: a
/// template is made of tokens and blanks alone and holds at least one token.
pub open spec fn grammar(s: Seq<char>) -> Option<Seq<Seq<Part>>> {
    match tokens_at(s, 0) {
        Some(tokens) => if tokens.len() > 0 {
            Some(tokens)
        } else {
            None
        },
        None => None,
    }
}

/// A run ends inside the text, and on a character that is not of the class.
pub proof fn lemma_run_end(s: Seq<char>, i: int, class: CharClass)
    requires
        0 <= i <= s.len(),
    ensures
        i <= run_end(s, i, class) <= s.len(),
        run_end(s, i, class) < s.len() ==> !class.has(s[run_end(s, i, class)]),
        forall|k: int| i <= k < run_end(s, i, class) ==> class.has(#[trigger] s[k]),
    decreases s.len() - i,
{
    if i < s.len() && class.has(s[i]) {
        lemma_run_end(s, i + 1, class);
    }
}

/// A part is never empty and ends inside the text.
pub proof fn lemma_part_at(s: Seq<char>, i: int)
    ensures
        part_at(s, i) matches Some((_, next)) ==> 0 <= i < next <= s.len(),
{
    if 0 <= i < s.len() {
        lemma_run_end(s, i, CharClass::Bare);
        lemma_run_end(s, i + 1, CharClass::Quoted);
        lemma_run_end(s, i + 1, CharClass::Name);
    }
}

/// A run of parts ends inside the text, and beyond its start if there is a
/// part at all.
pub proof fn lemma_parts_at(s: Seq<char>, i: int)
    requires
        0 <= i <= s.len(),
    ensures
        i <= parts_at(s, i).1 <= s.len(),
        parts_at(s, i).0.len() > 0 ==> parts_at(s, i).1 > i,
        parts_at(s, i).0.len() == 0 <==> part_at(s, i) is None,
    decreases s.len() - i,
{
    lemma_part_at(s, i);
    match part_at(s, i) {
        Some((part, next)) => {
            lemma_parts_at(s, next);
        },
        None => {},
    }
}

/// One part of a token.
#[derive(Debug, PartialEq, Eq)]
pub enum TokenPart {
    Bare(String),
    Placeholder,
    EnvVariable(String),
}

impl View for TokenPart {
    type V = Part;

    open spec fn view(&self) -> Part {
        match self {
            TokenPart::Bare(text) => Part::Bare(text@),
            TokenPart::Placeholder => Part::Placeholder,
            TokenPart::EnvVariable(name) => Part::Variable(name@),
        }
    }
}

/// One token of a template: the parts that make up one argument.
#[derive(Debug, PartialEq, Eq)]
pub struct Token(pub Vec<TokenPart>);

impl View for Token {
    type V = Seq<Part>;

    open spec fn view(&self) -> Seq<Part> {
        self.0@.map_values(|part: TokenPart| part@)
    }
}

/// The tokens of a vector, each by its parts.
pub open spec fn tokens_view(tokens: Seq<Token>) -> Seq<Seq<Part>> {
    tokens.map_values(|token: Token| token@)
}

/// Reads the run of `class` characters that starts at `start`.
fn scan(s: &str, len: usize, start: usize, class: CharClass) -> (end: usize)
    requires
        len == s@.len(),
        start <= len,
    ensures
        end == run_end(s@, start as int, class),
        start <= end <= len,
{
    let mut i = start;
    while i < len
        invariant
            len == s@.len(),
            start <= i <= len,
            run_end(s@, start as int, class) == run_end(s@, i as int, class),
        ensures
            start <= i <= len,
            run_end(s@, start as int, class) == i,
        decreases len - i,
    {
        if !class.contains(s.get_char(i)) {
            break ;
        }
        i += 1;
    }
    i
}

/// Reads the text between `from` and `to` into a string of its own.
fn text(s: &str, from: usize, to: usize) -> (t: String)
    requires
        from <= to <= s@.len(),
    ensures
        t@ == s@.subrange(from as int, to as int),
{
    String::from_str(s.substring_char(from, to))
}

/// Reads the part that starts at `i`.
fn read_part(s: &str, len: usize, i: usize) -> (r: Option<(TokenPart, usize)>)
    requires
        len == s@.len(),
        i <= len,
    ensures
        match r {
            Some((part, next)) => part_at(s@, i as int) == Some((part@, next as int)) && i < next
                <= len,
            None => part_at(s@, i as int) is None,
        },
{
    proof {
        lemma_part_at(s@, i as int);
    }
    if i >= len {
        return None;
    }
    let ch = s.get_char(i);
    if token_char(ch) {
        let end = scan(s, len, i, CharClass::Bare);
        Some((TokenPart::Bare(text(s, i, end)), end))
    } else if ch == '"' {
        let close = scan(s, len, i + 1, CharClass::Quoted);
        if close < len {
            Some((TokenPart::Bare(text(s, i + 1, close)), close + 1))
        } else {
            None
        }
    } else if ch == '{' {
        if i + 1 < len && s.get_char(i + 1) == '}' {
            Some((TokenPart::Placeholder, i + 2))
        } else {
            None
        }
    } else if ch == '$' {
        let end = scan(s, len, i + 1, CharClass::Name);
        if end > i + 1 {
            Some((TokenPart::EnvVariable(text(s, i + 1, end)), end))
        } else {
            None
        }
    } else {
        None
    }
}

/// Reads the token that starts at `start`: its parts, and where it ends.
fn read_token(s: &str, len: usize, start: usize) -> (r: (Token, usize))
    requires
        len == s@.len(),
        start <= len,
    ensures
        parts_at(s@, start as int) == (r.0@, r.1 as int),
        start <= r.1 <= len,
{
    let mut parts: Vec<TokenPart> = Vec::new();
    let mut i = start;
    loop
        invariant
            len == s@.len(),
            start <= i <= len,
            parts_at(s@, start as int) == ({
                let (rest, end) = parts_at(s@, i as int);
                (parts@.map_values(|part: TokenPart| part@) + rest, end)
            }),
        ensures
            start <= i <= len,
            parts_at(s@, start as int) == (parts@.map_values(|part: TokenPart| part@), i as int),
        decreases len - i,
    {
        let ghost before = parts@.map_values(|part: TokenPart| part@);
        match read_part(s, len, i) {
            Some((part, next)) => {
                proof {
                    let (rest, end) = parts_at(s@, next as int);
                    assert(parts_at(s@, i as int) == (seq![part@] + rest, end));
                    assert(parts@.push(part).map_values(|part: TokenPart| part@) + rest =~= before
                        + (seq![part@] + rest));
                }
                parts.push(part);
                i = next;
            },
            None => {
                proof {
                    assert(parts_at(s@, i as int) == (Seq::<Part>::empty(), i as int));
                    assert(before + Seq::<Part>::empty() =~= before);
                }
                break ;
            },
        }
    }
    (Token(parts), i)
}

/// Reads a template into its tokens, or finds that the text is no template.
pub fn parse(format: &str) -> (r: Option<Vec<Token>>)
    ensures
        match r {
            Some(tokens) => grammar(format@) == Some(tokens_view(tokens@)),
            None => grammar(format@) is None,
        },
{
    let len = format.unicode_len();
    let mut tokens: Vec<Token> = Vec::new();
    let mut i: usize = 0;
    loop
        invariant
            len == format@.len(),
            i <= len,
            tokens_at(format@, 0) == (match tokens_at(format@, i as int) {
                Some(rest) => Some(tokens_view(tokens@) + rest),
                None => None,
            }),
        ensures
            tokens_at(format@, 0) == Some(tokens_view(tokens@)),
        decreases len - i,
    {
        let ghost before = tokens_view(tokens@);
        let start = scan(format, len, i, CharClass::Blank);
        if start >= len {
            proof {
                assert(tokens_at(format@, i as int) == Some(Seq::<Seq<Part>>::empty()));
                assert(before + Seq::<Seq<Part>>::empty() =~= before);
            }
            break ;
        }
        let (token, end) = read_token(format, len, start);
        proof {
            lemma_parts_at(format@, start as int);
        }
        if token.0.len() == 0 {
            assert(tokens_at(format@, i as int) is None);
            assert(grammar(format@) is None);
            return None;
        }
        proof {
            let rest = tokens_at(format@, end as int);
            assert(tokens_at(format@, i as int) == (match rest {
                Some(rest) => Some(seq![token@] + rest),
                None => None,
            }));
            if rest is Some {
                assert(tokens_view(tokens@.push(token)) + rest->0 =~= before + (seq![token@]
                    + rest->0));
            }
        }
        tokens.push(token);
        i = end;
    }
    if tokens.len() == 0 {
        None
    } else {
        Some(tokens)
    }
}

/// One variable of the environment a template is filled in from. A value of
/// `None` stands for a value that is not valid Unicode.
#[derive(Debug, PartialEq, Eq)]
pub struct EnvVar {
    pub name: String,
    pub value: Option<String>,
}

/// Why a template did not become a command.
#[derive(Debug, Clone, Copy, PartialEq, Eq, Structural)]
pub enum CommandError {
    /// The text is no template.
    Syntax,
    /// The template holds more placeholders than there are arguments.
    TooManyPlaceholders,
    /// A variable the template names did not resolve.
    Var(VarError),
}

/// The value of the variable `name`: that of the first entry of that name,
/// `NotUnicode` where that entry has no text, and `NotPresent` where there
/// is no such entry.
pub open spec fn lookup(env: Seq<EnvVar>, name: Seq<char>) -> Result<Seq<char>, VarError>
    decreases env.len(),
{
    if env.len() == 0 {
        Err(VarError::NotPresent)
    } else if env[0].name@ == name {
        match env[0].value {
            Some(value) => Ok(value@),
            None => Err(VarError::NotUnicode),
        }
    } else {
        lookup(env.drop_first(), name)
    }
}

/// The text one part stands for, and the index of the argument the next
/// placeholder takes, given that this one would take the argument `next`.
pub open spec fn part_text(part: Part, args: Seq<Seq<char>>, next: int, env: Seq<EnvVar>) -> Result<
    (Seq<char>, int),
    CommandError,
> {
    match part {
        Part::Bare(text) => Ok((text, next)),
        Part::Placeholder => if 0 <= next < args.len() {
            Ok((args[next], next + 1))
        } else {
            Err(CommandError::TooManyPlaceholders)
        },
        Part::Variable(name) => match lookup(env, name) {
            Ok(value) => Ok((value, next)),
            Err(error) => Err(CommandError::Var(error)),
        },
    }
}

/// The text the parts of a token stand for, one after the other, and the
/// index of the next unused argument. The first part that fails decides.
pub open spec fn parts_text(
    parts: Seq<Part>,
    args: Seq<Seq<char>>,
    next: int,
    env: Seq<EnvVar>,
) -> Result<
    (Seq<char>, int),
    CommandError,
>
    decreases parts.len(),
{
    if parts.len() == 0 {
        Ok((Seq::empty(), next))
    } else {
        match part_text(parts[0], args, next, env) {
            Err(error) => Err(error),
            Ok((head, after)) => match parts_text(parts.drop_first(), args, after, env) {
                Err(error) => Err(error),
                Ok((tail, end)) => Ok((head + tail, end)),
            },
        }
    }
}

/// The words the tokens stand for, in order. The placeholders take the
/// arguments from `next` on, in the order they stand in the template. The
/// first part that fails decides.
pub open spec fn tokens_text(
    tokens: Seq<Seq<Part>>,
    args: Seq<Seq<char>>,
    next: int,
    env: Seq<EnvVar>,
) -> Result<Seq<Seq<char>>, CommandError>
    decreases tokens.len(),
{
    if tokens.len() == 0 {
        Ok(Seq::empty())
    } else {
        match parts_text(tokens[0], args, next, env) {
            Err(error) => Err(error),
            Ok((word, after)) => match tokens_text(tokens.drop_first(), args, after, env) {
                Err(error) => Err(error),
                Ok(words) => Ok(seq![word] + words),
            },
        }
    }
}

/// The argument vector a template and its arguments stand for.
pub open spec fn command_words(format: Seq<char>, args: Seq<Seq<char>>, env: Seq<EnvVar>) -> Result<
    Seq<Seq<char>>,
    CommandError,
> {
    match grammar(format) {
        None => Err(CommandError::Syntax),
        Some(tokens) => tokens_text(tokens, args, 0, env),
    }
}

/// The texts of a slice of arguments.
pub open spec fn arg_texts(args: Seq<&str>) -> Seq<Seq<char>> {
    args.map_values(|arg: &str| arg@)
}

/// Looks a variable up in the environment.
pub fn env_var(env: &Vec<EnvVar>, name: &String) -> (r: Result<String, VarError>)
    ensures
        match r {
            Ok(value) => lookup(env@, name@) == Ok::<Seq<char>, VarError>(value@),
            Err(error) => lookup(env@, name@) == Err::<Seq<char>, VarError>(error),
        },
{
    let mut i: usize = 0;
    assert(env@.skip(0) =~= env@);
    while i < env.len()
        invariant
            i <= env.len(),
            lookup(env@, name@) == lookup(env@.skip(i as int), name@),
        decreases env.len() - i,
    {
        proof {
            assert(env@.skip(i as int)[0] == env@[i as int]);
            assert(env@.skip(i as int).drop_first() =~= env@.skip(i + 1));
        }
        if env[i].name == *name {
            return match &env[i].value {
                Some(value) => Ok(value.clone()),
                None => Err(VarError::NotUnicode),
            };
        }
        i += 1;
    }
    Err(VarError::NotPresent)
}

impl Token {
    /// Writes out the text the token stands for. Placeholders take the
    /// arguments from `next` on; the index of the next unused argument comes
    /// back with the text.
    pub fn into_string(&self, args: &[&str], next: usize, env: &Vec<EnvVar>) -> (r: Result<
        (String, usize),
        CommandError,
    >)
        ensures
            match r {
                Ok((word, after)) => parts_text(self@, arg_texts(args@), next as int, env@) == Ok::<
                    (Seq<char>, int),
                    CommandError,
                >((word@, after as int)),
                Err(error) => parts_text(self@, arg_texts(args@), next as int, env@) == Err::<
                    (Seq<char>, int),
                    CommandError,
                >(error),
            },
    {
        let mut token = String::new();
        let mut cursor = next;
        let mut i: usize = 0;
        proof {
            assert(self@.skip(0) =~= self@);
            let whole = parts_text(self@, arg_texts(args@), next as int, env@);
            if whole is Ok {
                assert(token@ + whole->Ok_0.0 =~= whole->Ok_0.0);
            }
        }
        while i < self.0.len()
            invariant
                i <= self.0.len(),
                parts_text(self@, arg_texts(args@), next as int, env@) == (match parts_text(
                    self@.skip(i as int),
                    arg_texts(args@),
                    cursor as int,
                    env@,
                ) {
                    Ok((tail, end)) => Ok((token@ + tail, end)),
                    Err(error) => Err(error),
                }),
            decreases self.0.len() - i,
        {
            proof {
                assert(self@.skip(i as int)[0] == self.0@[i as int]@);
                assert(self@.skip(i as int).drop_first() =~= self@.skip(i + 1));
            }
            let ghost before = token@;
            let ghost rest = parts_text(self@.skip(i + 1), arg_texts(args@), cursor as int, env@);
            match &self.0[i] {
                TokenPart::Bare(text) => {
                    token.append(text.as_str());
                    proof {
                        if rest is Ok {
                            assert(before + (text@ + rest->Ok_0.0) =~= token@ + rest->Ok_0.0);
                        }
                    }
                },
                TokenPart::Placeholder => {
                    if cursor < args.len() {
                        token.append(args[cursor]);
                        proof {
                            let after = parts_text(
                                self@.skip(i + 1),
                                arg_texts(args@),
                                cursor + 1,
                                env@,
                            );
                            if after is Ok {
                                assert(before + (args@[cursor as int]@ + after->Ok_0.0) =~= token@
                                    + after->Ok_0.0);
                            }
                        }
                        cursor += 1;
                    } else {
                        assert(part_text(
                            self@.skip(i as int)[0],
                            arg_texts(args@),
                            cursor as int,
                            env@,
                        ) == Err::<(Seq<char>, int), CommandError>(
                            CommandError::TooManyPlaceholders,
                        ));
                        return Err(CommandError::TooManyPlaceholders);
                    }
                },
                TokenPart::EnvVariable(name) => {
                    match env_var(env, name) {
                        Ok(value) => {
                            token.append(value.as_str());
                            proof {
                                if rest is Ok {
                                    assert(before + (value@ + rest->Ok_0.0) =~= token@
                                        + rest->Ok_0.0);
                                }
                            }
                        },
                        Err(error) => {
                            assert(part_text(
                                self@.skip(i as int)[0],
                                arg_texts(args@),
                                cursor as int,
                                env@,
                            ) == Err::<(Seq<char>, int), CommandError>(CommandError::Var(error)));
                            return Err(CommandError::Var(error));
                        },
                    }
                },
            }
            i += 1;
        }
        proof {
            assert(self@.skip(i as int).len() == 0);
            assert(token@ + Seq::<char>::empty() =~= token@);
        }
        Ok((token, cursor))
    }
}

/// Fills in the tokens of a template: every token becomes one word.
pub fn render(tokens: &Vec<Token>, args: &[&str], env: &Vec<EnvVar>) -> (r: Result<
    Vec<String>,
    CommandError,
>)
    ensures
        match r {
            Ok(words) => tokens_text(tokens_view(tokens@), arg_texts(args@), 0, env@) == Ok::<
                Seq<Seq<char>>,
                CommandError,
            >(texts(words@)),
            Err(error) => tokens_text(tokens_view(tokens@), arg_texts(args@), 0, env@) == Err::<
                Seq<Seq<char>>,
                CommandError,
            >(error),
        },
{
    let mut words: Vec<String> = Vec::new();
    let mut next: usize = 0;
    let mut i: usize = 0;
    proof {
        assert(tokens_view(tokens@).skip(0) =~= tokens_view(tokens@));
        let whole = tokens_text(tokens_view(tokens@), arg_texts(args@), 0, env@);
        if whole is Ok {
            assert(texts(words@) + whole->Ok_0 =~= whole->Ok_0);
        }
    }
    while i < tokens.len()
        invariant
            i <= tokens.len(),
            next <= args@.len(),
            tokens_text(tokens_view(tokens@), arg_texts(args@), 0, env@) == (match tokens_text(
                tokens_view(tokens@).skip(i as int),
                arg_texts(args@),
                next as int,
                env@,
            ) {
                Ok(tail) => Ok(texts(words@) + tail),
                Err(error) => Err(error),
            }),
        decreases tokens.len() - i,
    {
        proof {
            assert(tokens_view(tokens@).skip(i as int)[0] == tokens@[i as int]@);
            assert(tokens_view(tokens@).skip(i as int).drop_first() =~= tokens_view(tokens@).skip(
                i + 1,
            ));
        }
        let ghost before = texts(words@);
        match tokens[i].into_string(args, next, env) {
            Ok((word, after)) => {
                proof {
                    let rest = tokens_text(
                        tokens_view(tokens@).skip(i + 1),
                        arg_texts(args@),
                        after as int,
                        env@,
                    );
                    if rest is Ok {
                        assert(texts(words@.push(word)) + rest->Ok_0 =~= before + (seq![word@]
                            + rest->Ok_0));
                    }
                    lemma_args_used(tokens@[i as int]@, arg_texts(args@), next as int, env@);
                }
                words.push(word);
                next = after;
            },
            Err(error) => {
                return Err(error);
            },
        }
        i += 1;
    }
    proof {
        assert(tokens_view(tokens@).skip(i as int).len() == 0);
        assert(texts(words@) + Seq::<Seq<char>>::empty() =~= texts(words@));
    }
    Ok(words)
}

/// Filling in parts never moves past the last argument.
pub proof fn lemma_args_used(parts: Seq<Part>, args: Seq<Seq<char>>, next: int, env: Seq<EnvVar>)
    requires
        0 <= next <= args.len(),
    ensures
        parts_text(parts, args, next, env) matches Ok((_, after)) ==> next <= after <= args.len(),
    decreases parts.len(),
{
    if parts.len() > 0 {
        match part_text(parts[0], args, next, env) {
            Ok((_, after)) => {
                lemma_args_used(parts.drop_first(), args, after, env);
            },
            Err(_) => {},
        }
    }
}

/// Reads a template and fills it in: the argument vector it stands for, or
/// the reason there is none.
pub fn parse_cmd(format: &str, args: &[&str], env: &Vec<EnvVar>) -> (r: Result<
    Vec<String>,
    CommandError,
>)
    ensures
        match r {
            Ok(words) => command_words(format@, arg_texts(args@), env@) == Ok::<
                Seq<Seq<char>>,
                CommandError,
            >(texts(words@)) && words@.len() > 0,
            Err(error) => command_words(format@, arg_texts(args@), env@) == Err::<
                Seq<Seq<char>>,
                CommandError,
            >(error),
        },
{
    match parse(format) {
        None => Err(CommandError::Syntax),
        Some(tokens) => {
            let r = render(&tokens, args, env);
            proof {
                lemma_words_per_token(tokens_view(tokens@), arg_texts(args@), 0, env@);
            }
            r
        },
    }
}

/// Every token gives one word.
pub proof fn lemma_words_per_token(
    tokens: Seq<Seq<Part>>,
    args: Seq<Seq<char>>,
    next: int,
    env: Seq<EnvVar>,
)
    ensures
        tokens_text(tokens, args, next, env) matches Ok(words) ==> words.len() == tokens.len(),
    decreases tokens.len(),
{
    if tokens.len() > 0 {
        match parts_text(tokens[0], args, next, env) {
            Ok((_, after)) => {
                lemma_words_per_token(tokens.drop_first(), args, after, env);
            },
            Err(_) => {},
        }
    }
}

/// Makes the command a template and its arguments stand for. The first word
/// is the program, the others are its arguments, and the command is
/// reported under the words joined by spaces.
pub fn new_command(format: &str, args: &[&str], env: &Vec<EnvVar>) -> (r: Result<
    ShellCommand,
    CommandError,
>)
    ensures
        match r {
            Ok(command) => command_words(format@, arg_texts(args@), env@) == Ok::<
                Seq<Seq<char>>,
                CommandError,
            >(texts(command.argv@)) && command.argv@.len() > 0 && command.line@ == join(
                texts(command.argv@),
                seq![' '],
            ),
            Err(error) => command_words(format@, arg_texts(args@), env@) == Err::<
                Seq<Seq<char>>,
                CommandError,
            >(error),
        },
{
    match parse_cmd(format, args, env) {
        Ok(words) => Ok(ShellCommand::from_argv(words)),
        Err(error) => Err(error),
    }
}

} // verus!
