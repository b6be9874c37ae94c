//! The command line that a run invokes, and how it is shown in the
//! transcript.

use vstd::prelude::*;

use crate::app::{
    policy_name, policy_name_spec, vector_width_name, vector_width_name_spec, App, POLICY_COUNT,
    VECTOR_WIDTH_COUNT,
};
use crate::text::{string_push, views};

verus! {

/// `parts` joined with single spaces between them.
pub open spec fn joined(parts: Seq<Seq<char>>) -> Seq<char>
    decreases parts.len(),
{
    if parts.len() == 0 {
        Seq::empty()
    } else if parts.len() == 1 {
        parts[0]
    } else {
        joined(parts.drop_last()) + seq![' '] + parts.last()
    }
}

/// A character that a POSIX shell reads as itself, outside any quotes.
pub open spec fn is_plain_char(c: char) -> bool {
    ||| ('a' <= c && c <= 'z')
    ||| ('A' <= c && c <= 'Z')
    ||| ('0' <= c && c <= '9')
    ||| c == '_' || c == '+' || c == '-' || c == '.'
    ||| c == ',' || c == '/' || c == ':' || c == '='
}

/// A word that needs no quoting: not empty, and made of plain characters.
pub open spec fn is_plain_word(s: Seq<char>) -> bool {
    s.len() > 0 && forall|i: int| 0 <= i < s.len() ==> is_plain_char(#[trigger] s[i])
}

/// `s` with every single quote written as `'\''`.
pub open spec fn escape_quotes(s: Seq<char>) -> Seq<char>
    decreases s.len(),
{
    if s.len() == 0 {
        Seq::empty()
    } else {
        escape_quotes(s.drop_last()) + (if s.last() == '\'' {
            seq!['\'', '\\', '\'', '\'']
        } else {
            seq![s.last()]
        })
    }
}

/// How `s` is written on a shell command line: as it is when it is a plain
/// word, else between single quotes.
pub open spec fn shell_quoted(s: Seq<char>) -> Seq<char> {
    if is_plain_word(s) {
        s
    } else {
        seq!['\''] + escape_quotes(s) + seq!['\'']
    }
}

/// The word a POSIX shell reads from `s`, for words made of plain
/// characters, backslash escapes and single-quoted stretches: outside quotes
/// a backslash takes the next character as it is and a single quote opens a
/// quoted stretch; inside one, every character but the closing quote stands
/// for itself.
pub open spec fn shell_read(s: Seq<char>, quoted: bool) -> Seq<char>
    decreases s.len(),
{
    if s.len() == 0 {
        Seq::empty()
    } else if quoted {
        if s[0] == '\'' {
            shell_read(s.drop_first(), false)
        } else {
            seq![s[0]] + shell_read(s.drop_first(), true)
        }
    } else if s[0] == '\'' {
        shell_read(s.drop_first(), true)
    } else if s[0] == '\\' && s.len() > 1 {
        seq![s[1]] + shell_read(s.skip(2), false)
    } else {
        seq![s[0]] + shell_read(s.drop_first(), false)
    }
}

/// What a character becomes inside single quotes.
pub open spec fn escaped_char(c: char) -> Seq<char> {
    if c == '\'' {
        seq!['\'', '\\', '\'', '\'']
    } else {
        seq![c]
    }
}

proof fn lemma_escape_front(c: char, t: Seq<char>)
    ensures
        escape_quotes(seq![c] + t) == escaped_char(c) + escape_quotes(t),
    decreases t.len(),
{
    let s = seq![c] + t;
    if t.len() == 0 {
        assert(s.drop_last() =~= Seq::<char>::empty());
        assert(s =~= seq![c]);
        assert(escape_quotes(Seq::<char>::empty()) =~= Seq::<char>::empty());
        assert(escape_quotes(s) =~= escaped_char(c) + escape_quotes(t));
    } else {
        lemma_escape_front(c, t.drop_last());
        assert(s.drop_last() =~= seq![c] + t.drop_last());
        assert(s.last() == t.last());
        assert(escape_quotes(s) =~= escaped_char(c) + escape_quotes(t));
    }
}

proof fn lemma_read_plain(s: Seq<char>)
    requires
        forall|i: int| 0 <= i < s.len() ==> is_plain_char(#[trigger] s[i]),
    ensures
        shell_read(s, false) == s,
    decreases s.len(),
{
    if s.len() > 0 {
        assert(is_plain_char(s[0]));
        assert forall|i: int| 0 <= i < s.drop_first().len() implies is_plain_char(
            #[trigger] s.drop_first()[i],
        ) by {
            assert(s.drop_first()[i] == s[i + 1]);
        }
        lemma_read_plain(s.drop_first());
        assert(s =~= seq![s[0]] + s.drop_first());
    }
}

proof fn lemma_read_escaped(s: Seq<char>, rest: Seq<char>)
    ensures
        shell_read(escape_quotes(s) + rest, true) == s + shell_read(rest, true),
    decreases s.len(),
{
    if s.len() == 0 {
        assert(escape_quotes(s) + rest =~= rest);
        assert(s + shell_read(rest, true) =~= shell_read(rest, true));
    } else {
        let c = s[0];
        let t = s.drop_first();
        assert(s =~= seq![c] + t);
        lemma_escape_front(c, t);
        lemma_read_escaped(t, rest);
        let x = escape_quotes(t) + rest;
        assert(escape_quotes(s) + rest =~= escaped_char(c) + x);
        let w = escaped_char(c) + x;
        if c == '\'' {
            let w1 = seq!['\\', '\'', '\''] + x;
            let w2 = seq!['\''] + x;
            assert(w[0] == '\'');
            assert(w.drop_first() =~= w1);
            assert(shell_read(w, true) == shell_read(w1, false));
            assert(w1[0] == '\\' && w1[1] == '\'');
            assert(w1.skip(2) =~= w2);
            assert(shell_read(w1, false) == seq!['\''] + shell_read(w2, false));
            assert(w2[0] == '\'');
            assert(w2.drop_first() =~= x);
            assert(shell_read(w2, false) == shell_read(x, true));
        } else {
            assert(w[0] == c);
            assert(w.drop_first() =~= x);
            assert(shell_read(w, true) == seq![c] + shell_read(x, true));
        }
        assert(s + shell_read(rest, true) =~= seq![c] + (t + shell_read(rest, true)));
    }
}

/// A POSIX shell reads back exactly the word that was quoted.
pub proof fn law_shell_reads_back_quoted_words(s: Seq<char>)
    ensures
        shell_read(shell_quoted(s), false) == s,
{
    if is_plain_word(s) {
        lemma_read_plain(s);
    } else {
        let q = seq!['\''] + escape_quotes(s) + seq!['\''];
        assert(q.drop_first() =~= escape_quotes(s) + seq!['\'']);
        lemma_read_escaped(s, seq!['\'']);
        let close = seq!['\''];
        assert(close[0] == '\'');
        assert(close.drop_first() =~= Seq::<char>::empty());
        assert(shell_read(close, true) == shell_read(Seq::<char>::empty(), false));
        assert(shell_read(close, true) =~= Seq::<char>::empty());
        assert(s + Seq::<char>::empty() =~= s);
    }
}

fn is_plain_character(c: char) -> (plain: bool)
    ensures
        plain == is_plain_char(c),
{
    ('a' <= c && c <= 'z') || ('A' <= c && c <= 'Z') || ('0' <= c && c <= '9') || c == '_' || c
        == '+' || c == '-' || c == '.' || c == ',' || c == '/' || c == ':' || c == '='
}

/// Quotes `value` for display as one word of a shell command.
pub fn shell_quote(value: &str) -> (quoted: String)
    ensures
        quoted@ == shell_quoted(value@),
{
    let n = value.unicode_len();
    let mut plain = n > 0;
    let mut i: usize = 0;
    while i < n
        invariant
            n == value@.len(),
            i <= n,
            plain == (n > 0 && forall|j: int| 0 <= j < i ==> is_plain_char(#[trigger] value@[j])),
        decreases n - i,
    {
        let c = value.get_char(i);
        if !is_plain_character(c) {
            plain = false;
        }
        i = i + 1;
    }
    if plain {
        return value.to_owned();
    }
    let mut quoted = String::new();
    string_push(&mut quoted, '\'');
    let mut i: usize = 0;
    while i < n
        invariant
            n == value@.len(),
            i <= n,
            quoted@ == seq!['\''] + escape_quotes(value@.take(i as int)),
        decreases n - i,
    {
        let c = value.get_char(i);
        proof {
            assert(value@.take(i + 1).drop_last() =~= value@.take(i as int));
        }
        if c == '\'' {
            string_push(&mut quoted, '\'');
            string_push(&mut quoted, '\\');
            string_push(&mut quoted, '\'');
            string_push(&mut quoted, '\'');
        } else {
            string_push(&mut quoted, c);
        }
        proof {
            assert(quoted@ =~= seq!['\''] + escape_quotes(value@.take(i + 1)));
        }
        i = i + 1;
    }
    string_push(&mut quoted, '\'');
    proof {
        assert(value@.take(n as int) =~= value@);
    }
    quoted
}

/// The command line shown in the transcript: the executable, then each
/// argument quoted for the shell, separated by spaces.
pub fn command_line(executable: &str, arguments: &Vec<String>) -> (line: String)
    ensures
        line@ == executable@ + seq![' '] + joined(
            arguments@.map_values(|a: String| shell_quoted(a@)),
        ),
{
    let mut line = executable.to_owned();
    string_push(&mut line, ' ');
    let ghost head = line@;
    let ghost parts = arguments@.map_values(|a: String| shell_quoted(a@));
    let mut i: usize = 0;
    while i < arguments.len()
        invariant
            i <= arguments.len(),
            parts == arguments@.map_values(|a: String| shell_quoted(a@)),
            line@ == head + joined(parts.take(i as int)),
        decreases arguments.len() - i,
    {
        let quoted = shell_quote(arguments[i].as_str());
        proof {
            assert(parts.take(i + 1).drop_last() =~= parts.take(i as int));
        }
        if i > 0 {
            string_push(&mut line, ' ');
        }
        line.append(quoted.as_str());
        proof {
            if i == 0 {
                assert(parts.take(0) =~= Seq::<Seq<char>>::empty());
            }
            assert(line@ =~= head + joined(parts.take(i + 1)));
        }
        i = i + 1;
    }
    proof {
        assert(parts.take(arguments.len() as int) =~= parts);
    }
    line
}

impl App {
    /// The arguments that the configured run passes to `rv-vectorize`.
    pub open spec fn arguments(&self) -> Seq<Seq<char>> {
        let selection = if self.vector_width == 0 {
            seq!["--policy"@, policy_name_spec(self.policy as int)]
        } else {
            seq!["--vf"@, vector_width_name_spec(self.vector_width as int)]
        };
        selection + (if self.report {
            seq!["--report"@]
        } else {
            Seq::empty()
        }) + (if !self.verify {
            seq!["--no-verify"@]
        } else {
            Seq::empty()
        }) + (if self.emit_bitcode {
            seq!["--emit-bitcode"@]
        } else {
            Seq::empty()
        }) + seq![self.input.value@, "-o"@, self.output.value@]
    }

    /// The automatic width passes the chosen policy; a fixed width passes
    /// `--vf` instead. Toggles add their flags, and the paths come last.
    pub fn command_arguments(&self) -> (arguments: Vec<String>)
        requires
            self.policy < POLICY_COUNT,
            self.vector_width < VECTOR_WIDTH_COUNT,
        ensures
            views(arguments@) == self.arguments(),
    {
        let mut arguments: Vec<String> = Vec::new();
        if self.vector_width == 0 {
            arguments.push("--policy".to_owned());
            arguments.push(policy_name(self.policy).to_owned());
        } else {
            arguments.push("--vf".to_owned());
            arguments.push(vector_width_name(self.vector_width).to_owned());
        }
        if self.report {
            arguments.push("--report".to_owned());
        }
        if !self.verify {
            arguments.push("--no-verify".to_owned());
        }
        if self.emit_bitcode {
            arguments.push("--emit-bitcode".to_owned());
        }
        arguments.push(self.input.value.clone());
        arguments.push("-o".to_owned());
        arguments.push(self.output.value.clone());
        proof {
            assert(views(arguments@) =~= self.arguments());
        }
        arguments
    }
}

} // verus!
