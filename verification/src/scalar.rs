use vstd::prelude::*;
use crate::text::{append_str, chars_of, dec_nat, dec_u64, dec_digit, push_range};

verus! {

/// A leaf display value of the input tree: any JSON scalar.
///
/// A number that is a non-negative integer is held as `UInt`; any other
/// number is held as `Num`, as the text it was rendered from.
#[derive(Debug, Clone, PartialEq, Eq)]
pub enum Scalar {
    Null,
    Bool(bool),
    UInt(u64),
    Num(String),
    Str(String),
}

impl Scalar {
    /// A copy equal to `self`.
    pub fn duplicate(&self) -> (r: Scalar)
        ensures
            r == *self,
    {
        match self {
            Scalar::Null => Scalar::Null,
            Scalar::Bool(b) => Scalar::Bool(*b),
            Scalar::UInt(n) => Scalar::UInt(*n),
            Scalar::Num(t) => Scalar::Num(t.clone()),
            Scalar::Str(t) => Scalar::Str(t.clone()),
        }
    }
}

/// The character for one hexadecimal digit, lower case.
pub open spec fn hex_digit(d: nat) -> char {
    if d < 10 {
        dec_digit(d)
    } else if d == 10 {
        'a'
    } else if d == 11 {
        'b'
    } else if d == 12 {
        'c'
    } else if d == 13 {
        'd'
    } else if d == 14 {
        'e'
    } else {
        'f'
    }
}

/// How one character appears inside a JSON string literal: quote and
/// backslash escaped, control characters as their short escapes or as
/// `\u00..`, everything else as itself.
pub open spec fn escape_char(c: char) -> Seq<char> {
    if c == '"' {
        "\\\""@
    } else if c == '\\' {
        "\\\\"@
    } else if c == '\u{8}' {
        "\\b"@
    } else if c == '\t' {
        "\\t"@
    } else if c == '\n' {
        "\\n"@
    } else if c == '\u{c}' {
        "\\f"@
    } else if c == '\r' {
        "\\r"@
    } else if (c as u32) < 32 {
        seq!['\\', 'u', '0', '0', hex_digit((c as u32 / 16) as nat), hex_digit(
            (c as u32 % 16) as nat,
        )]
    } else {
        seq![c]
    }
}

/// The body of the JSON string literal for `s`.
pub open spec fn escape(s: Seq<char>) -> Seq<char>
    decreases s.len(),
{
    if s.len() == 0 {
        Seq::empty()
    } else {
        escape(s.drop_last()) + escape_char(s.last())
    }
}

fn hex_char(d: u32) -> (c: char)
    requires
        d < 16,
    ensures
        c == hex_digit(d as nat),
{
    if d == 10 {
        'a'
    } else if d == 11 {
        'b'
    } else if d == 12 {
        'c'
    } else if d == 13 {
        'd'
    } else if d == 14 {
        'e'
    } else if d == 15 {
        'f'
    } else if d == 0 {
        '0'
    } else if d == 1 {
        '1'
    } else if d == 2 {
        '2'
    } else if d == 3 {
        '3'
    } else if d == 4 {
        '4'
    } else if d == 5 {
        '5'
    } else if d == 6 {
        '6'
    } else if d == 7 {
        '7'
    } else if d == 8 {
        '8'
    } else {
        '9'
    }
}

fn push_escaped_char(out: &mut Vec<char>, c: char)
    ensures
        final(out)@ == old(out)@ + escape_char(c),
{
    if c == '"' {
        append_str(out, "\\\"");
    } else if c == '\\' {
        append_str(out, "\\\\");
    } else if c == '\u{8}' {
        append_str(out, "\\b");
    } else if c == '\t' {
        append_str(out, "\\t");
    } else if c == '\n' {
        append_str(out, "\\n");
    } else if c == '\u{c}' {
        append_str(out, "\\f");
    } else if c == '\r' {
        append_str(out, "\\r");
    } else if (c as u32) < 32 {
        let x = c as u32;
        out.push('\\');
        out.push('u');
        out.push('0');
        out.push('0');
        let hi = hex_char(x / 16);
        out.push(hi);
        let lo = hex_char(x % 16);
        out.push(lo);
        proof {
            assert(final(out)@ =~= old(out)@ + escape_char(c));
        }
    } else {
        out.push(c);
        proof {
            assert(final(out)@ =~= old(out)@ + escape_char(c));
        }
    }
}

/// Appends the escaped body of the JSON string literal for `s`.
fn push_escaped(out: &mut Vec<char>, s: &str)
    ensures
        final(out)@ == old(out)@ + escape(s@),
{
    let v = chars_of(s);
    let n = v.len();
    let mut i: usize = 0;
    while i < n
        invariant
            v@ == s@,
            n == v@.len(),
            i <= n,
            out@ == old(out)@ + escape(s@.subrange(0, i as int)),
        decreases n - i,
    {
        let c = v[i];
        push_escaped_char(out, c);
        proof {
            let pre = s@.subrange(0, i as int);
            let post = s@.subrange(0, i + 1);
            assert(post.drop_last() =~= pre);
            assert(post.last() == c);
            assert(old(out)@ + escape(pre) + escape_char(c) =~= old(out)@ + escape(post));
        }
        i += 1;
    }
    proof {
        assert(s@.subrange(0, s@.len() as int) =~= s@);
    }
}

/// How a scalar appears in the output: its JSON rendering, so strings are
/// quoted and escaped, numbers and the words `null`, `true`, `false` stand
/// as themselves.
pub open spec fn render_scalar(s: Scalar) -> Seq<char> {
    match s {
        Scalar::Null => "null"@,
        Scalar::Bool(b) => if b {
            "true"@
        } else {
            "false"@
        },
        Scalar::UInt(n) => dec_nat(n as nat),
        Scalar::Num(t) => t@,
        Scalar::Str(t) => "\""@ + escape(t@) + "\""@,
    }
}

/// How a name appears in a header: a string stands bare, without quotes;
/// any other scalar appears as its JSON rendering.
pub open spec fn render_name(s: Scalar) -> Seq<char> {
    match s {
        Scalar::Str(t) => t@,
        _ => render_scalar(s),
    }
}

/// Appends the JSON rendering of `s`.
pub fn push_scalar(out: &mut Vec<char>, s: &Scalar)
    ensures
        final(out)@ == old(out)@ + render_scalar(*s),
{
    match s {
        Scalar::Null => append_str(out, "null"),
        Scalar::Bool(b) => if *b {
            append_str(out, "true")
        } else {
            append_str(out, "false")
        },
        Scalar::UInt(n) => {
            let d = dec_u64(*n);
            let len = d.len();
            push_range(out, &d, 0, len);
            proof {
                assert(d@.subrange(0, d@.len() as int) =~= d@);
            }
        },
        Scalar::Num(t) => append_str(out, t.as_str()),
        Scalar::Str(t) => {
            append_str(out, "\"");
            push_escaped(out, t.as_str());
            append_str(out, "\"");
            proof {
                assert(final(out)@ =~= old(out)@ + render_scalar(*s));
            }
        },
    }
}

/// Appends the header rendering of the name `s`.
pub fn push_name(out: &mut Vec<char>, s: &Scalar)
    ensures
        final(out)@ == old(out)@ + render_name(*s),
{
    match s {
        Scalar::Str(t) => append_str(out, t.as_str()),
        _ => push_scalar(out, s),
    }
}

} // verus!
