//! String literals as JSON spells them.
use vstd::prelude::*;
use vstd::std_specs::iter::IteratorSpec;
use vstd::string::StringExecFns;

verus! {

/// The sixteen hexadecimal digits, lower case.
pub open spec fn hex_digits() -> Seq<char> {
    "0123456789abcdef"@
}

/// How one character is written inside a string literal.
pub open spec fn escaped_char(c: char) -> Seq<char> {
    if c == '"' {
        seq!['\\', '"']
    } else if c == '\\' {
        seq!['\\', '\\']
    } else if c == '\n' {
        seq!['\\', 'n']
    } else if c == '\r' {
        seq!['\\', 'r']
    } else if c == '\t' {
        seq!['\\', 't']
    } else if c == '\u{08}' {
        seq!['\\', 'b']
    } else if c == '\u{0c}' {
        seq!['\\', 'f']
    } else if (c as u32) < 0x20 {
        seq!['\\', 'u', '0', '0', hex_digits()[(c as u32) as int / 16], hex_digits()[(c as u32) as int % 16]]
    } else {
        seq![c]
    }
}

/// The characters of `s`, each written as inside a string literal.
pub open spec fn escaped(s: Seq<char>) -> Seq<char>
    decreases s.len(),
{
    if s.len() == 0 {
        Seq::empty()
    } else {
        escaped_char(s[0]) + escaped(s.drop_first())
    }
}

/// The string literal that stands for `s`: escaped, between double quotes.
pub open spec fn quoted(s: Seq<char>) -> Seq<char> {
    seq!['"'] + escaped(s) + seq!['"']
}

/// Appends one character with `String::push`, which adds exactly that
/// character at the end.
#[verifier::external_body]
pub(crate) fn push_char(out: &mut String, c: char)
    ensures
        final(out)@ == old(out)@.push(c),
{
    out.push(c);
}

/// Appends `c` as it is written inside a string literal.
pub(crate) fn push_escaped(out: &mut String, c: char)
    ensures
        final(out)@ == old(out)@ + escaped_char(c),
{
    if c == '"' {
        push_char(out, '\\');
        push_char(out, '"');
    } else if c == '\\' {
        push_char(out, '\\');
        push_char(out, '\\');
    } else if c == '\n' {
        push_char(out, '\\');
        push_char(out, 'n');
    } else if c == '\r' {
        push_char(out, '\\');
        push_char(out, 'r');
    } else if c == '\t' {
        push_char(out, '\\');
        push_char(out, 't');
    } else if c == '\u{08}' {
        push_char(out, '\\');
        push_char(out, 'b');
    } else if c == '\u{0c}' {
        push_char(out, '\\');
        push_char(out, 'f');
    } else if (c as u32) < 0x20 {
        let code: u32 = c as u32;
        let digits = "0123456789abcdef";
        proof {
            reveal_strlit("0123456789abcdef");
        }
        let high = digits.get_char((code / 16) as usize);
        let low = digits.get_char((code % 16) as usize);
        push_char(out, '\\');
        push_char(out, 'u');
        push_char(out, '0');
        push_char(out, '0');
        push_char(out, high);
        push_char(out, low);
    } else {
        push_char(out, c);
    }
    assert(out@ =~= old(out)@ + escaped_char(c));
}

/// Writes `s` as a JSON string literal.
pub fn quote(s: &str) -> (out: String)
    ensures
        out@ == quoted(s@),
{
    let mut out = String::new();
    push_char(&mut out, '"');
    let mut rest = s.chars();
    loop
        invariant
            out@ + escaped(rest.remaining()) == seq!['"'] + escaped(s@),
            rest.decrease() is Some,
        ensures
            out@ == seq!['"'] + escaped(s@),
        decreases rest.decrease()->0,
    {
        let ghost before = rest.remaining();
        match rest.next() {
            Some(c) => {
                push_escaped(&mut out, c);
                assert(out@ + escaped(rest.remaining()) =~= seq!['"'] + escaped(s@)) by {
                    assert(escaped(before) == escaped_char(c) + escaped(before.drop_first()));
                }
            },
            None => {
                assert(before.len() == 0);
                assert(out@ =~= out@ + escaped(before));
                break ;
            },
        }
    }
    push_char(&mut out, '"');
    out
}

/// Whether the text holds a line feed.
pub(crate) fn contains_newline(s: &str) -> (yes: bool)
    ensures
        yes == s@.contains('\n'),
{
    let mut rest = s.chars();
    let mut found = false;
    let ghost mut seen: int = 0;
    loop
        invariant_except_break
            0 <= seen <= s@.len(),
            rest.remaining() == s@.skip(seen),
            forall|k: int| 0 <= k < seen ==> s@[k] != '\n',
            rest.decrease() is Some,
            !found,
        ensures
            found == s@.contains('\n'),
        decreases rest.decrease()->0,
    {
        match rest.next() {
            Some(c) => {
                assert(c == s@[seen]);
                if c == '\n' {
                    found = true;
                    break ;
                }
                proof {
                    assert(s@.skip(seen).drop_first() =~= s@.skip(seen + 1));
                    seen = seen + 1;
                }
            },
            None => {
                assert(seen == s@.len());
                break ;
            },
        }
    }
    found
}

} // verus!
