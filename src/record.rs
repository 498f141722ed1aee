use vstd::prelude::*;

use crate::text::{char_seqs, copy_range, split_chars, split_on};

verus! {

/// One taken file, in the form that the prompt template consumes.
#[derive(Clone, Debug)]
pub struct FileRecord {
    /// Root-relative path, with `/` between segments.
    pub path: String,
    /// The path as shown: root-relative, or absolute.
    pub display_path: String,
    pub extension: String,
    /// The formatted content.
    pub content: String,
    /// Number of characters in `content`.
    pub char_count: usize,
    /// Whether `content` is wrapped in a fenced block.
    pub fenced: bool,
}

pub open spec fn strip_cr(l: Seq<char>) -> Seq<char> {
    if l.len() > 0 && l.last() == '\r' {
        l.drop_last()
    } else {
        l
    }
}

/// The lines of a text as `str::lines` gives them: split at `\n`, a final
/// line terminator adds no empty line, and a `\r` before `\n` is dropped.
pub open spec fn text_lines(s: Seq<char>) -> Seq<Seq<char>> {
    let p = split_on(s, '\n');
    let q = if p.len() > 0 && p.last().len() == 0 {
        p.drop_last()
    } else {
        p
    };
    Seq::new(q.len(), |k: int| strip_cr(q[k]))
}

pub open spec fn digit_char(d: nat) -> char {
    if d == 0 {
        '0'
    } else if d == 1 {
        '1'
    } else if d == 2 {
        '2'
    } else if d == 3 {
        '3'
    } else if d == 4 {
        '4'
    } else if d == 5 {
        '5'
    } else if d == 6 {
        '6'
    } else if d == 7 {
        '7'
    } else if d == 8 {
        '8'
    } else {
        '9'
    }
}

/// The decimal digits of `n`.
pub open spec fn decimal(n: nat) -> Seq<char>
    decreases n,
{
    if n < 10 {
        seq![digit_char(n)]
    } else {
        decimal(n / 10).push(digit_char(n % 10))
    }
}

pub open spec fn spaces(n: nat) -> Seq<char> {
    Seq::new(n, |k: int| ' ')
}

/// `s` right-aligned in a field four wide.
pub open spec fn pad4(s: Seq<char>) -> Seq<char> {
    if s.len() < 4 {
        spaces((4 - s.len()) as nat) + s
    } else {
        s
    }
}

/// Line `k` (counting from one) with its number and separator.
pub open spec fn numbered_line(k: nat, line: Seq<char>) -> Seq<char> {
    pad4(decimal(k)) + seq![' ', '|', ' '] + line + seq!['\n']
}

/// The lines numbered from one, each ending in `\n`.
pub open spec fn numbered(lines: Seq<Seq<char>>) -> Seq<char>
    decreases lines.len(),
{
    if lines.len() == 0 {
        Seq::empty()
    } else {
        numbered(lines.drop_last()) + numbered_line(lines.len(), lines.last())
    }
}

pub open spec fn fence() -> Seq<char> {
    seq!['`', '`', '`']
}

pub open spec fn fence_open(ext: Seq<char>) -> Seq<char> {
    fence() + ext + seq!['\n']
}

pub open spec fn fence_close() -> Seq<char> {
    seq!['\n'] + fence()
}

/// The content with line numbers when asked for, else the text itself.
pub open spec fn body_of(code: Seq<char>, line_numbers: bool) -> Seq<char> {
    if line_numbers {
        numbered(text_lines(code))
    } else {
        code
    }
}

/// The content as it goes to the output.
pub open spec fn formatted(code: Seq<char>, ext: Seq<char>, line_numbers: bool, no_codeblock: bool) -> Seq<
    char,
> {
    if no_codeblock {
        body_of(code, line_numbers)
    } else {
        fence_open(ext) + body_of(code, line_numbers) + fence_close()
    }
}

/// Text with the opening fence for `ext` and the closing fence taken off.
pub open spec fn strip_fences(s: Seq<char>, ext: Seq<char>) -> Seq<char> {
    s.subrange(fence_open(ext).len() as int, s.len() - fence_close().len())
}

/// Taking the fences off fenced content gives the unfenced content exactly.
pub proof fn lemma_strip_fences(code: Seq<char>, ext: Seq<char>, line_numbers: bool)
    ensures
        strip_fences(formatted(code, ext, line_numbers, false), ext) == formatted(
            code,
            ext,
            line_numbers,
            true,
        ),
{
    let b = body_of(code, line_numbers);
    let f = fence_open(ext) + b + fence_close();
    assert(f.subrange(fence_open(ext).len() as int, f.len() - fence_close().len()) =~= b);
}

/// The name's extension: what follows its last `.`, where that dot is not
/// its first character.
pub open spec fn ext_rec(s: Seq<char>) -> Option<Seq<char>>
    decreases s.len(),
{
    if s.len() <= 1 {
        None
    } else if s.last() == '.' {
        Some(Seq::empty())
    } else {
        match ext_rec(s.drop_last()) {
            Some(e) => Some(e.push(s.last())),
            None => None,
        }
    }
}

pub open spec fn extension_of(name: Seq<char>) -> Seq<char> {
    match ext_rec(name) {
        Some(e) => e,
        None => Seq::empty(),
    }
}

pub open spec fn lift(o: Option<Seq<char>>, suffix: Seq<char>) -> Option<Seq<char>> {
    match o {
        Some(e) => Some(e + suffix),
        None => None,
    }
}

/// The extension of a file name; empty where it has none.
pub fn extension(name: &Vec<char>) -> (r: Vec<char>)
    ensures
        r@ == extension_of(name@),
{
    let n = name.len();
    let mut j: usize = n;
    assert(name@.subrange(0, n as int) =~= name@);
    assert(name@.subrange(n as int, n as int) =~= Seq::<char>::empty());
    assert(ext_rec(name@) matches Some(e) ==> e + Seq::<char>::empty() =~= e);
    while j > 1 && name[j - 1] != '.'
        invariant
            j <= n == name.len(),
            ext_rec(name@) == lift(
                ext_rec(name@.subrange(0, j as int)),
                name@.subrange(j as int, n as int),
            ),
        decreases j,
    {
        let ghost pre = name@.subrange(0, j as int);
        assert(pre.drop_last() =~= name@.subrange(0, j - 1));
        assert(pre.last() == name@[j - 1]);
        let ghost suf = name@.subrange(j as int, n as int);
        assert(name@.subrange(j - 1, n as int) =~= seq![name@[j - 1]] + suf);
        assert(forall|e: Seq<char>| #[trigger] e.push(name@[j - 1]) + suf =~= e + (seq![name@[j - 1]] + suf));
        j = j - 1;
    }
    if j <= 1 {
        return Vec::new();
    }
    let r = copy_range(name, j, n);
    assert(Seq::<char>::empty() + name@.subrange(j as int, n as int) =~= r@);
    r
}

fn digit(d: usize) -> (c: char)
    requires
        d < 10,
    ensures
        c == digit_char(d as nat),
{
    if d == 0 {
        '0'
    } else if d == 1 {
        '1'
    } else if d == 2 {
        '2'
    } else if d == 3 {
        '3'
    } else if d == 4 {
        '4'
    } else if d == 5 {
        '5'
    } else if d == 6 {
        '6'
    } else if d == 7 {
        '7'
    } else if d == 8 {
        '8'
    } else {
        '9'
    }
}

fn push_decimal(out: &mut Vec<char>, n: usize)
    ensures
        final(out)@ == old(out)@ + decimal(n as nat),
    decreases n,
{
    if n < 10 {
        out.push(digit(n));
        assert(final(out)@ =~= old(out)@ + decimal(n as nat));
    } else {
        push_decimal(out, n / 10);
        out.push(digit(n % 10));
        assert(final(out)@ =~= old(out)@ + decimal(n as nat));
    }
}

fn push_all(out: &mut Vec<char>, s: &Vec<char>)
    ensures
        final(out)@ == old(out)@ + s@,
{
    let mut k: usize = 0;
    while k < s.len()
        invariant
            k <= s.len(),
            out@ == old(out)@ + s@.subrange(0, k as int),
        decreases s.len() - k,
    {
        out.push(s[k]);
        k = k + 1;
        assert(out@ =~= old(out)@ + s@.subrange(0, k as int));
    }
    assert(s@.subrange(0, s.len() as int) =~= s@);
}

fn push_numbered_line(out: &mut Vec<char>, k: usize, line: &Vec<char>)
    ensures
        final(out)@ == old(out)@ + numbered_line(k as nat, line@),
{
    let mut d: Vec<char> = Vec::new();
    push_decimal(&mut d, k);
    assert(d@ =~= decimal(k as nat));
    let mut pad: usize = 0;
    while pad + d.len() < 4
        invariant
            pad + d.len() <= 4 || pad == 0,
            out@ == old(out)@ + spaces(pad as nat),
        decreases 4 - pad,
    {
        out.push(' ');
        pad = pad + 1;
        assert(out@ =~= old(out)@ + spaces(pad as nat));
    }
    assert(spaces(pad as nat) + d@ =~= pad4(decimal(k as nat)));
    push_all(out, &d);
    out.push(' ');
    out.push('|');
    out.push(' ');
    push_all(out, line);
    out.push('\n');
    assert(final(out)@ =~= old(out)@ + numbered_line(k as nat, line@));
}

/// The lines of `code`, as `str::lines` gives them.
pub fn lines_of(code: &Vec<char>) -> (r: Vec<Vec<char>>)
    ensures
        char_seqs(r@) == text_lines(code@),
{
    let mut p = split_chars(code, '\n');
    let ghost ps = char_seqs(p@);
    proof {
        crate::text::lemma_split_on_nonempty(code@, '\n');
    }
    if p.len() > 0 && p[p.len() - 1].len() == 0 {
        p.pop();
    }
    let ghost q = char_seqs(p@);
    assert(q =~= (if ps.len() > 0 && ps.last().len() == 0 {
        ps.drop_last()
    } else {
        ps
    }));
    let mut r: Vec<Vec<char>> = Vec::new();
    let mut k: usize = 0;
    while k < p.len()
        invariant
            k <= p.len(),
            r.len() == k,
            q == char_seqs(p@),
            forall|m: int| 0 <= m < k ==> #[trigger] r@[m]@ == strip_cr(q[m]),
        decreases p.len() - k,
    {
        let l = &p[k];
        let line = if l.len() > 0 && l[l.len() - 1] == '\r' {
            copy_range(l, 0, l.len() - 1)
        } else {
            copy_range(l, 0, l.len())
        };
        assert(l@.drop_last() =~= l@.subrange(0, l.len() - 1));
        assert(l@ =~= l@.subrange(0, l.len() as int));
        r.push(line);
        k = k + 1;
    }
    assert(char_seqs(r@) =~= text_lines(code@));
    r
}

/// The lines numbered from one, right-aligned four wide, each ending in `\n`.
pub fn number_lines(lines: &Vec<Vec<char>>) -> (r: Vec<char>)
    ensures
        r@ == numbered(char_seqs(lines@)),
{
    let mut r: Vec<char> = Vec::new();
    let mut k: usize = 0;
    assert(char_seqs(lines@).subrange(0, 0) =~= Seq::<Seq<char>>::empty());
    while k < lines.len()
        invariant
            k <= lines.len(),
            r@ == numbered(char_seqs(lines@).subrange(0, k as int)),
        decreases lines.len() - k,
    {
        let ghost pre = char_seqs(lines@).subrange(0, k + 1);
        assert(pre.drop_last() =~= char_seqs(lines@).subrange(0, k as int));
        assert(pre.last() == lines@[k as int]@);
        push_numbered_line(&mut r, k + 1, &lines[k]);
        k = k + 1;
    }
    assert(char_seqs(lines@).subrange(0, lines.len() as int) =~= char_seqs(lines@));
    r
}

/// Formats a file's text: numbered lines when `line_numbers` is set, and a
/// fenced block tagged with `ext` unless `no_codeblock` is set.
pub fn format_content(code: &Vec<char>, ext: &Vec<char>, line_numbers: bool, no_codeblock: bool) -> (r:
    Vec<char>)
    ensures
        r@ == formatted(code@, ext@, line_numbers, no_codeblock),
{
    let body = if line_numbers {
        let ls = lines_of(code);
        number_lines(&ls)
    } else {
        copy_range(code, 0, code.len())
    };
    assert(code@.subrange(0, code.len() as int) =~= code@);
    if no_codeblock {
        return body;
    }
    let mut r: Vec<char> = Vec::new();
    r.push('`');
    r.push('`');
    r.push('`');
    push_all(&mut r, ext);
    r.push('\n');
    push_all(&mut r, &body);
    r.push('\n');
    r.push('`');
    r.push('`');
    r.push('`');
    assert(r@ =~= formatted(code@, ext@, line_numbers, no_codeblock));
    r
}

} // verus!
