//! Shader diagnostics: error kinds and the numbered source listing that
//! accompanies a compiler log.

use crate::text::{
    decimal_digits,
    decimal_len,
    decimal_width,
    lemma_decimal_width_monotonic,
    push_char,
    push_chars,
    push_decimal,
    push_repeated,
    repeated,
    shortfall,
    to_chars,
};
use vstd::prelude::*;
use vstd::string::StringExecFns;

verus! {

/// Errors that can occur during shader compilation or program linking.
#[derive(Debug)]
pub enum ShaderError {
    /// A shader stage failed to compile.
    CompileError {
        /// The shader stage that failed (e.g. "vertex", "fragment").
        stage: String,
        /// The driver's info log describing the error.
        log: String,
    },
    /// A program failed to link.
    LinkError(String),
}

impl Clone for ShaderError {
    /// An error of the same kind with the same texts.
    fn clone(&self) -> (copy: ShaderError)
        ensures
            copy.message_text() == self.message_text(),
            copy is CompileError <==> self is CompileError,
    {
        match self {
            ShaderError::CompileError { stage, log } => ShaderError::CompileError {
                stage: stage.clone(),
                log: log.clone(),
            },
            ShaderError::LinkError(log) => ShaderError::LinkError(log.clone()),
        }
    }
}

impl ShaderError {
    /// The text that [`ShaderError::message`] produces.
    pub open spec fn message_text(&self) -> Seq<char> {
        match self {
            ShaderError::CompileError { stage, log } => {
                "shader compile error ("@ + stage@ + "):\n"@ + log@
            },
            ShaderError::LinkError(log) => "shader link error:\n"@ + log@,
        }
    }

    /// A human-readable description of the error.
    pub fn message(&self) -> (text: String)
        ensures
            text@ == self.message_text(),
    {
        let mut out = String::new();
        match self {
            ShaderError::CompileError { stage, log } => {
                out.append("shader compile error (");
                out.append(stage.as_str());
                out.append("):\n");
                out.append(log.as_str());
            },
            ShaderError::LinkError(log) => {
                out.append("shader link error:\n");
                out.append(log.as_str());
            },
        }
        assert(out@ =~= self.message_text());
        out
    }
}

/// GL shader kind: vertex shader.
pub const VERTEX_SHADER: u32 = 0x8B31;

/// GL shader kind: fragment shader.
pub const FRAGMENT_SHADER: u32 = 0x8B30;

/// The name of a shader stage in diagnostics.
pub open spec fn stage_text(shader_type: u32) -> Seq<char> {
    if shader_type == VERTEX_SHADER {
        "vertex"@
    } else if shader_type == FRAGMENT_SHADER {
        "fragment"@
    } else {
        "unknown"@
    }
}

/// Names the stage of a shader of the given GL kind.
pub fn stage_name(shader_type: u32) -> (name: &'static str)
    ensures
        name@ == stage_text(shader_type),
{
    if shader_type == VERTEX_SHADER {
        "vertex"
    } else if shader_type == FRAGMENT_SHADER {
        "fragment"
    } else {
        "unknown"
    }
}

/// The error for a shader that failed to compile: its stage, and the
/// numbered source followed by the driver's log.
pub fn compile_failure(shader_type: u32, source: &str, info_log: &str) -> (e: ShaderError)
    ensures
        e is CompileError,
        e->stage@ == stage_text(shader_type),
        e->log@ == formatted(source@, info_log@),
{
    ShaderError::CompileError {
        stage: stage_name(shader_type).to_owned(),
        log: format_shader_error(source, info_log),
    }
}

/// The position of the first line feed in `s`, or `s.len()` if it has none.
pub open spec fn line_end(s: Seq<char>) -> int
    decreases s.len(),
{
    if s.len() == 0 {
        0
    } else if s[0] == '\n' {
        0
    } else {
        1 + line_end(s.drop_first())
    }
}

/// A line without the carriage return that stood before its line feed.
pub open spec fn without_return(line: Seq<char>) -> Seq<char> {
    if line.len() > 0 && line.last() == '\r' {
        line.drop_last()
    } else {
        line
    }
}

/// The lines of a text. A line ends at a line feed, or at a carriage return
/// directly followed by one; the terminator is not part of the line. The
/// last line needs no terminator, and a text that ends in one has no empty
/// line after it.
pub open spec fn lines_of(s: Seq<char>) -> Seq<Seq<char>>
    decreases s.len(),
{
    if s.len() == 0 {
        Seq::empty()
    } else {
        let end = line_end(s);
        if 0 <= end < s.len() {
            seq![without_return(s.take(end))] + lines_of(s.skip(end + 1))
        } else {
            seq![s]
        }
    }
}

/// One line of the listing: the line number, right-aligned in `width`
/// columns, a colon, a blank and the line itself.
pub open spec fn numbered_line(number: nat, width: nat, line: Seq<char>) -> Seq<char> {
    repeated(' ', shortfall(width, decimal_width(number))) + decimal_digits(number) + seq![':', ' ']
        + line
}

/// The first `count` lines, numbered from one and joined by line feeds.
pub open spec fn listing(lines: Seq<Seq<char>>, width: nat, count: nat) -> Seq<char>
    decreases count,
{
    if count == 0 {
        Seq::empty()
    } else if count == 1 {
        numbered_line(1, width, lines[0])
    } else {
        listing(lines, width, (count - 1) as nat) + seq!['\n'] + numbered_line(
            count,
            width,
            lines[count - 1],
        )
    }
}

/// The report for a shader that failed to compile: the source with line
/// numbers, right-aligned to the width of the last one, then an empty line
/// and the compiler's log. An empty part is left out, with its separator.
pub open spec fn formatted(source: Seq<char>, log: Seq<char>) -> Seq<char> {
    let lines = lines_of(source);
    let numbered = listing(lines, decimal_width(lines.len()), lines.len());
    if lines.len() == 0 {
        log
    } else if log.len() == 0 {
        numbered
    } else {
        numbered + seq!['\n', '\n'] + log
    }
}

/// What `line_end` finds: no line feed before it, and one at it unless the
/// text ended first.
pub proof fn lemma_line_end(s: Seq<char>)
    ensures
        0 <= line_end(s) <= s.len(),
        forall|j: int| 0 <= j < line_end(s) ==> s[j] != '\n',
        line_end(s) < s.len() ==> s[line_end(s)] == '\n',
    decreases s.len(),
{
    if s.len() > 0 && s[0] != '\n' {
        lemma_line_end(s.drop_first());
        assert forall|j: int| 0 <= j < line_end(s) implies s[j] != '\n' by {
            if j > 0 {
                assert(s[j] == s.drop_first()[j - 1]);
            }
        }
    }
}

/// `line_end` is the only position with that property.
pub proof fn lemma_line_end_is(s: Seq<char>, k: int)
    requires
        0 <= k <= s.len(),
        forall|j: int| 0 <= j < k ==> s[j] != '\n',
        k < s.len() ==> s[k] == '\n',
    ensures
        line_end(s) == k,
{
    lemma_line_end(s);
    let e = line_end(s);
    if e < k {
        assert(s[e] != '\n');
    }
}

/// The positions `[start, end)` of each line of `chars`, in order.
pub fn line_ranges(chars: &Vec<char>) -> (ranges: Vec<(usize, usize)>)
    ensures
        ranges.len() == lines_of(chars@).len(),
        forall|k: int|
            0 <= k < ranges.len() ==> (#[trigger] ranges[k]).0 <= ranges[k].1 <= chars.len(),
        forall|k: int|
            0 <= k < ranges.len() ==> lines_of(chars@)[k] == chars@.subrange(
                (#[trigger] ranges[k]).0 as int,
                ranges[k].1 as int,
            ),
{
    let n: usize = chars.len();
    let mut ranges: Vec<(usize, usize)> = Vec::new();
    let mut start: usize = 0;
    let mut i: usize = 0;
    let ghost mut done: Seq<Seq<char>> = Seq::empty();
    proof {
        assert(chars@.skip(0) =~= chars@);
    }
    while i < n
        invariant
            start <= i <= n,
            n == chars.len(),
            forall|j: int| start <= j < i ==> chars@[j] != '\n',
            done.len() == ranges.len(),
            lines_of(chars@) == done + lines_of(chars@.skip(start as int)),
            forall|k: int|
                0 <= k < ranges.len() ==> (#[trigger] ranges[k]).0 <= ranges[k].1 <= n,
            forall|k: int|
                0 <= k < ranges.len() ==> done[k] == chars@.subrange(
                    (#[trigger] ranges[k]).0 as int,
                    ranges[k].1 as int,
                ),
        decreases n - i,
    {
        if chars[i] == '\n' {
            let ghost rest = chars@.skip(start as int);
            let mut end: usize = i;
            if end > start && chars[end - 1] == '\r' {
                end = end - 1;
            }
            proof {
                lemma_line_end_is(rest, i - start);
                assert(rest.take(i - start) =~= chars@.subrange(start as int, i as int));
                assert(without_return(rest.take(i - start)) =~= chars@.subrange(
                    start as int,
                    end as int,
                ));
                assert(rest.skip(i - start + 1) =~= chars@.skip(i + 1));
                done = done.push(chars@.subrange(start as int, end as int));
                assert(lines_of(chars@) =~= done + lines_of(chars@.skip(i + 1)));
            }
            ranges.push((start, end));
            start = i + 1;
        }
        i += 1;
    }
    if start < n {
        proof {
            let rest = chars@.skip(start as int);
            lemma_line_end_is(rest, n - start);
            assert(rest =~= chars@.subrange(start as int, n as int));
            done = done.push(rest);
            assert(lines_of(chars@) =~= done);
        }
        ranges.push((start, n));
    } else {
        proof {
            assert(lines_of(chars@) =~= done);
        }
    }
    ranges
}

/// Formats a shader compilation error for reading: the source with a line
/// number before each line, then the compiler's log.
pub fn format_shader_error(source: &str, log: &str) -> (text: String)
    ensures
        text@ == formatted(source@, log@),
{
    let chars: Vec<char> = to_chars(source);
    let ranges: Vec<(usize, usize)> = line_ranges(&chars);
    let count: usize = ranges.len();
    let width: usize = decimal_len(count);
    let ghost lines = lines_of(source@);
    let mut out = String::new();
    let mut i: usize = 0;
    while i < count
        invariant
            i <= count,
            count == ranges.len(),
            count == lines.len(),
            chars@ == source@,
            lines == lines_of(source@),
            width == decimal_width(count as nat),
            forall|k: int|
                0 <= k < ranges.len() ==> (#[trigger] ranges[k]).0 <= ranges[k].1 <= chars.len(),
            forall|k: int|
                0 <= k < ranges.len() ==> lines[k] == chars@.subrange(
                    (#[trigger] ranges[k]).0 as int,
                    ranges[k].1 as int,
                ),
            out@ == listing(lines, width as nat, i as nat),
        decreases count - i,
    {
        let ghost before = out@;
        if i > 0 {
            push_char(&mut out, '\n');
        }
        let number: usize = i + 1;
        proof {
            lemma_decimal_width_monotonic(number as nat, count as nat);
        }
        push_repeated(&mut out, ' ', width - decimal_len(number));
        push_decimal(&mut out, number);
        push_char(&mut out, ':');
        push_char(&mut out, ' ');
        let (start, end) = ranges[i];
        push_chars(&mut out, &chars, start, end);
        i += 1;
        assert(out@ =~= listing(lines, width as nat, i as nat));
    }
    if !log.is_empty() {
        if count > 0 {
            push_char(&mut out, '\n');
            push_char(&mut out, '\n');
        }
        out.append(log);
    }
    assert(out@ =~= formatted(source@, log@));
    out
}

} // verus!
