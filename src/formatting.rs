//! Display formatting: digit grouping, separator removal, truncation.

use vstd::prelude::*;
use vstd::string::StringSliceAdditionalSpecFns;
use vstd::utf8::decode_utf8;
use crate::text::{ascii_upper, chars_of, concat, remove_chars, remove_chars_of, string_of, to_upper, upper_of};

verus! {

/// `s` with `sep` between groups of `g` characters, counted from the right.
pub open spec fn grouped(s: Seq<char>, sep: char, g: nat) -> Seq<char>
    decreases s.len(),
{
    if g == 0 || s.len() <= g {
        s
    } else {
        grouped(s.subrange(0, s.len() - g), sep, g) + seq![sep] + s.subrange(s.len() - g, s.len() as int)
    }
}

/// The index of the first `c` in `s`, or its length.
pub open spec fn index_of(s: Seq<char>, c: char) -> int
    decreases s.len(),
{
    if s.len() == 0 || s[0] == c {
        0
    } else {
        1 + index_of(s.drop_first(), c)
    }
}

/// `s` grouped before its first point; the point and what follows are kept.
pub open spec fn grouped_number(s: Seq<char>, sep: char, g: nat) -> Seq<char> {
    let d = index_of(s, '.');
    grouped(s.subrange(0, d), sep, g) + s.subrange(d, s.len() as int)
}

proof fn lemma_index_of(s: Seq<char>, c: char)
    ensures
        0 <= index_of(s, c) <= s.len(),
        index_of(s, c) < s.len() ==> s[index_of(s, c)] == c,
        forall|k: int| 0 <= k < index_of(s, c) ==> s[k] != c,
    decreases s.len(),
{
    if s.len() > 0 && s[0] != c {
        lemma_index_of(s.drop_first(), c);
        assert forall|k: int| 0 <= k < index_of(s, c) implies s[k] != c by {
            if k > 0 {
                assert(s[k] == s.drop_first()[k - 1]);
            }
        }
    }
}

/// The index of the first `c` in `s`, or its length.
pub fn find_char(s: &Vec<char>, c: char) -> (r: usize)
    ensures
        r == index_of(s@, c),
{
    proof {
        lemma_index_of(s@, c);
    }
    let mut k: usize = 0;
    while k < s.len()
        invariant
            k <= s@.len(),
            0 <= index_of(s@, c) <= s@.len(),
            index_of(s@, c) < s@.len() ==> s@[index_of(s@, c)] == c,
            forall|m: int| 0 <= m < index_of(s@, c) ==> s@[m] != c,
            k <= index_of(s@, c),
        decreases s@.len() - k,
    {
        if s[k] == c {
            return k;
        }
        k += 1;
    }
    k
}

fn group_into(s: &Vec<char>, end: usize, sep: char, g: usize, out: &mut Vec<char>)
    requires
        end <= s@.len(),
        g > 0,
    ensures
        final(out)@ == old(out)@ + grouped(s@.subrange(0, end as int), sep, g as nat),
    decreases end,
{
    let ghost t = s@.subrange(0, end as int);
    if end <= g {
        let mut k: usize = 0;
        while k < end
            invariant
                k <= end <= s@.len(),
                out@ == old(out)@ + s@.subrange(0, k as int),
            decreases end - k,
        {
            out.push(s[k]);
            k += 1;
            assert(out@ =~= old(out)@ + s@.subrange(0, k as int));
        }
    } else {
        group_into(s, end - g, sep, g, out);
        let ghost mid = out@;
        out.push(sep);
        let mut k: usize = end - g;
        while k < end
            invariant
                g < end,
                end - g <= k <= end <= s@.len(),
                out@ == mid + seq![sep] + s@.subrange(end - g, k as int),
            decreases end - k,
        {
            out.push(s[k]);
            k += 1;
            assert(out@ =~= mid + seq![sep] + s@.subrange(end - g, k as int));
        }
        assert(t.subrange(0, t.len() - g) =~= s@.subrange(0, end - g));
        assert(t.subrange(t.len() - g, t.len() as int) =~= s@.subrange(end - g, end as int));
        assert(out@ =~= old(out)@ + grouped(t, sep, g as nat));
    }
}

/// `s` with `sep` between groups of `g` characters, counted from the right.
pub fn group_chars(s: &Vec<char>, sep: char, g: usize) -> (r: Vec<char>)
    requires
        g > 0,
    ensures
        r@ == grouped(s@, sep, g as nat),
{
    let mut out: Vec<char> = Vec::new();
    group_into(s, s.len(), sep, g, &mut out);
    assert(s@.subrange(0, s@.len() as int) =~= s@);
    assert(out@ =~= grouped(s@, sep, g as nat));
    out
}

/// `s` grouped before its first point, the rest kept.
pub fn group_number(s: &Vec<char>, sep: char, g: usize) -> (r: Vec<char>)
    requires
        g > 0,
    ensures
        r@ == grouped_number(s@, sep, g as nat),
{
    let d = find_char(s, '.');
    proof {
        lemma_index_of(s@, '.');
    }
    let mut head: Vec<char> = Vec::new();
    let mut k: usize = 0;
    while k < d
        invariant
            k <= d <= s@.len(),
            head@ == s@.subrange(0, k as int),
        decreases d - k,
    {
        head.push(s[k]);
        k += 1;
        assert(head@ =~= s@.subrange(0, k as int));
    }
    let mut out = group_chars(&head, sep, g);
    let ghost mid = out@;
    while k < s.len()
        invariant
            d <= k <= s@.len(),
            out@ == mid + s@.subrange(d as int, k as int),
        decreases s@.len() - k,
    {
        out.push(s[k]);
        k += 1;
        assert(out@ =~= mid + s@.subrange(d as int, k as int));
    }
    out
}

/// `input` cut to fit `max_length` UTF-8 bytes: unchanged if it fits;
/// otherwise `...` alone when `max_length` is at most 3, else its first
/// `max_length - 3` bytes followed by `...`.
pub open spec fn truncated(input: &str, max_length: usize) -> Seq<char> {
    if input.len() <= max_length {
        input@
    } else if max_length <= 3 {
        "..."@
    } else {
        decode_utf8(input.spec_bytes().subrange(0, max_length - 3)) + "..."@
    }
}

/// Display formatting.
pub struct Formatter;

impl Formatter {
    /// Puts `separator` between groups of `group_size` digits, counted from
    /// the right, in the part before the first point; empty input or a group
    /// size of zero leaves the input as it is.
    pub fn add_separator(input: &str, separator: char, group_size: usize) -> (r: String)
        ensures
            r@ == if input@.len() == 0 || group_size == 0 { input@ } else { grouped_number(input@, separator, group_size as nat) },
    {
        let s = chars_of(input);
        if s.len() == 0 || group_size == 0 {
            return string_of(&s);
        }
        string_of(&group_number(&s, separator, group_size))
    }

    /// The input without the characters in `separators`.
    pub fn remove_separators(input: &str, separators: &[char]) -> (r: String)
        ensures
            r@ == remove_chars(input@, separators@),
    {
        let s = chars_of(input);
        string_of(&remove_chars_of(&s, separators))
    }

    /// Hex digits without `_`, spaces and commas, in upper case.
    pub fn format_hex(input: &str) -> (r: String)
        ensures
            r@ == upper_of(remove_chars(input@, seq!['_', ' ', ','])),
            (forall|k: int| 0 <= k < input@.len() ==> (#[trigger] input@[k] as u32) < 128)
                ==> r@ == remove_chars(input@, seq!['_', ' ', ',']).map_values(|c: char| ascii_upper(c)),
    {
        let seps: [char; 3] = ['_', ' ', ','];
        assert(seps@ =~= seq!['_', ' ', ',']);
        let t = Self::remove_separators(input, &seps);
        proof {
            if forall|k: int| 0 <= k < input@.len() ==> (#[trigger] input@[k] as u32) < 128 {
                crate::text::lemma_remove_chars_ascii(input@, seps@);
            }
        }
        to_upper(t.as_str())
    }

    /// Binary digits without `_`, spaces and commas.
    pub fn format_binary(input: &str) -> (r: String)
        ensures
            r@ == remove_chars(input@, seq!['_', ' ', ',']),
    {
        let seps: [char; 3] = ['_', ' ', ','];
        assert(seps@ =~= seq!['_', ' ', ',']);
        Self::remove_separators(input, &seps)
    }

    /// Decimal digits without commas, spaces and `_`.
    pub fn format_decimal(input: &str) -> (r: String)
        ensures
            r@ == remove_chars(input@, seq![',', ' ', '_']),
    {
        let seps: [char; 3] = [',', ' ', '_'];
        assert(seps@ =~= seq![',', ' ', '_']);
        Self::remove_separators(input, &seps)
    }

    /// The input if it has at most `max_length` bytes in UTF-8; otherwise
    /// its first `max_length - 3` bytes and `...` (just `...` when
    /// `max_length` is at most 3). The cut must fall between characters.
    pub fn truncate(input: &str, max_length: usize) -> (r: String)
        requires
            input.len() <= max_length || max_length <= 3 || input.is_char_boundary((max_length - 3) as usize),
        ensures
            r@ == truncated(input, max_length),
    {
        if input.len() <= max_length {
            return String::from_str(input);
        }
        if max_length <= 3 {
            return String::from_str("...");
        }
        let (head, _) = input.split_at(max_length - 3);
        proof {
            vstd::utf8::encode_utf8_decode_utf8(head@);
        }
        concat(head, "...")
    }
}

} // verus!
