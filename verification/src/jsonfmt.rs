//! Verified JSON emission for the record types: string escaping and the
//! little field-appending helpers their serialisers are built from.
//!
//! The emitters write compact JSON; which keys appear, and in which order,
//! is pinned down exactly by the spec functions here and in the record
//! modules.

use vstd::prelude::*;
use crate::strutil::spec_u64_dec;

verus! {

/// Hexadecimal digit character for a value below sixteen.
pub open spec fn spec_hex_char(n: nat) -> char {
    if n < 10 {
        crate::strutil::spec_digit_char(n)
    } else if n == 10 {
        'a'
    } else if n == 11 {
        'b'
    } else if n == 12 {
        'c'
    } else if n == 13 {
        'd'
    } else if n == 14 {
        'e'
    } else {
        'f'
    }
}

/// How one character appears inside a JSON string literal.
pub open spec fn spec_escape_char(c: char) -> Seq<char> {
    if c == '"' {
        seq!['\\', '"']
    } else if c == '\\' {
        seq!['\\', '\\']
    } else if c == '\n' {
        seq!['\\', 'n']
    } else if c == '\r' {
        seq!['\\', 'r']
    } else if c == '\t' {
        seq!['\\', 't']
    } else if c == '\u{8}' {
        seq!['\\', 'b']
    } else if c == '\u{c}' {
        seq!['\\', 'f']
    } else if (c as nat) < 32 {
        seq!['\\', 'u', '0', '0', spec_hex_char((c as nat) / 16), spec_hex_char((c as nat) % 16)]
    } else {
        seq![c]
    }
}

/// The body of a JSON string literal for `s`.
pub open spec fn spec_escape(s: Seq<char>) -> Seq<char>
    decreases s.len(),
{
    if s.len() == 0 {
        Seq::empty()
    } else {
        spec_escape_char(s[0]) + spec_escape(s.drop_first())
    }
}

/// The JSON string literal for `s`, quotes included.
pub open spec fn spec_json_string(s: Seq<char>) -> Seq<char> {
    seq!['"'] + spec_escape(s) + seq!['"']
}

/// The JSON rendering of a boolean.
pub open spec fn spec_json_bool(b: bool) -> Seq<char> {
    if b {
        "true"@
    } else {
        "false"@
    }
}

/// The JSON rendering of an optional string field: nothing when absent,
/// else the given label (comma, key and colon) followed by the value.
pub open spec fn spec_json_opt_field(label: Seq<char>, v: Option<Seq<char>>) -> Seq<char> {
    match v {
        Option::None => Seq::empty(),
        Option::Some(s) => label + spec_json_string(s),
    }
}

/// The JSON rendering of an optional boolean field.
pub open spec fn spec_json_opt_bool_field(label: Seq<char>, v: Option<bool>) -> Seq<char> {
    match v {
        Option::None => Seq::empty(),
        Option::Some(b) => label + spec_json_bool(b),
    }
}

/// The JSON rendering of an optional number field.
pub open spec fn spec_json_opt_u64_field(label: Seq<char>, v: Option<u64>) -> Seq<char> {
    match v {
        Option::None => Seq::empty(),
        Option::Some(n) => label + spec_u64_dec(n as nat),
    }
}

/// The comma-separated body of a JSON array.
pub open spec fn spec_json_array_body(items: Seq<Seq<char>>) -> Seq<char>
    decreases items.len(),
{
    if items.len() == 0 {
        Seq::empty()
    } else if items.len() == 1 {
        items[0]
    } else {
        items[0] + seq![','] + spec_json_array_body(items.drop_first())
    }
}

/// A JSON array over already-rendered items.
pub open spec fn spec_json_array(items: Seq<Seq<char>>) -> Seq<char> {
    seq!['['] + spec_json_array_body(items) + seq![']']
}

/// Appending one more rendered item extends the array body by a comma and
/// the item, except for the first.
pub proof fn lemma_json_array_body_snoc(items: Seq<Seq<char>>, x: Seq<char>)
    ensures
        spec_json_array_body(items.push(x)) == if items.len() == 0 {
            x
        } else {
            spec_json_array_body(items) + seq![','] + x
        },
    decreases items.len(),
{
    if items.len() == 0 {
        assert(items.push(x).len() == 1);
        assert(items.push(x)[0] == x);
    } else {
        assert(items.push(x).drop_first() =~= items.drop_first().push(x));
        lemma_json_array_body_snoc(items.drop_first(), x);
        assert(items.push(x)[0] == items[0]);
        if items.len() == 1 {
            assert(spec_json_array_body(items.push(x)) =~= spec_json_array_body(items) + seq![',']
                + x);
        } else {
            assert(spec_json_array_body(items.push(x)) =~= spec_json_array_body(items) + seq![',']
                + x);
        }
    }
}

fn hex_str(d: u64) -> (r: &'static str)
    requires
        d < 16,
    ensures
        r@ =~= seq![spec_hex_char(d as nat)],
{
    if d < 10 {
        crate::strutil::digit_str(d)
    } else {
        proof {
            reveal_strlit("a");
            reveal_strlit("b");
            reveal_strlit("c");
            reveal_strlit("d");
            reveal_strlit("e");
            reveal_strlit("f");
        }
        match d {
            10 => "a",
            11 => "b",
            12 => "c",
            13 => "d",
            14 => "e",
            _ => "f",
        }
    }
}

fn append_escaped_char(out: &mut String, s: &str, i: usize)
    requires
        i < s@.len(),
    ensures
        final(out)@ == old(out)@ + spec_escape_char(s@[i as int]),
{
    let len = s.unicode_len();
    let c = s.get_char(i);
    if c == '"' {
        out.append("\\\"");
        proof {
            reveal_strlit("\\\"");
            assert(out@ =~= old(out)@ + spec_escape_char(s@[i as int]));
        }
    } else if c == '\\' {
        out.append("\\\\");
        proof {
            reveal_strlit("\\\\");
            assert(out@ =~= old(out)@ + spec_escape_char(s@[i as int]));
        }
    } else if c == '\n' {
        out.append("\\n");
        proof {
            reveal_strlit("\\n");
            assert(out@ =~= old(out)@ + spec_escape_char(s@[i as int]));
        }
    } else if c == '\r' {
        out.append("\\r");
        proof {
            reveal_strlit("\\r");
            assert(out@ =~= old(out)@ + spec_escape_char(s@[i as int]));
        }
    } else if c == '\t' {
        out.append("\\t");
        proof {
            reveal_strlit("\\t");
            assert(out@ =~= old(out)@ + spec_escape_char(s@[i as int]));
        }
    } else if c == '\u{8}' {
        out.append("\\b");
        proof {
            reveal_strlit("\\b");
            assert(out@ =~= old(out)@ + spec_escape_char(s@[i as int]));
        }
    } else if c == '\u{c}' {
        out.append("\\f");
        proof {
            reveal_strlit("\\f");
            assert(out@ =~= old(out)@ + spec_escape_char(s@[i as int]));
        }
    } else if (c as u32) < 32 {
        out.append("\\u00");
        let n: u32 = c as u32;
        out.append(hex_str((n / 16) as u64));
        out.append(hex_str((n % 16) as u64));
        proof {
            reveal_strlit("\\u00");
            assert(out@ =~= old(out)@ + spec_escape_char(s@[i as int]));
        }
    } else {
        out.append(s.substring_char(i, i + 1));
        proof {
            assert(s@.subrange(i as int, i as int + 1) =~= seq![s@[i as int]]);
            assert(out@ =~= old(out)@ + spec_escape_char(s@[i as int]));
        }
    }
}

/// Appends the JSON string literal for `v` to `out`.
pub fn append_json_string(out: &mut String, v: &str)
    ensures
        final(out)@ == old(out)@ + spec_json_string(v@),
{
    out.append("\"");
    proof {
        reveal_strlit("\"");
        assert("\""@ =~= seq!['"']);
    }
    let len = v.unicode_len();
    let mut i: usize = 0;
    while i < len
        invariant
            0 <= i <= len,
            len == v@.len(),
            out@ == old(out)@ + seq!['"'] + spec_escape(v@.subrange(0, i as int)),
        decreases len - i,
    {
        append_escaped_char(out, v, i);
        proof {
            let a = v@.subrange(0, i as int);
            let b = v@.subrange(0, i as int + 1);
            lemma_escape_snoc(a, v@[i as int]);
            assert(b =~= a.push(v@[i as int]));
        }
        i = i + 1;
    }
    out.append("\"");
    proof {
        assert(v@.subrange(0, len as int) =~= v@);
        assert(out@ =~= old(out)@ + spec_json_string(v@));
    }
}

proof fn lemma_escape_snoc(s: Seq<char>, c: char)
    ensures
        spec_escape(s.push(c)) == spec_escape(s) + spec_escape_char(c),
    decreases s.len(),
{
    if s.len() == 0 {
        assert(s.push(c).drop_first() =~= s);
        assert(spec_escape(s.push(c)) =~= spec_escape(s) + spec_escape_char(c));
    } else {
        assert(s.push(c).drop_first() =~= s.drop_first().push(c));
        lemma_escape_snoc(s.drop_first(), c);
        assert(spec_escape(s.push(c)) =~= spec_escape(s) + spec_escape_char(c));
    }
}

/// Appends the JSON rendering of a boolean to `out`.
pub fn append_json_bool(out: &mut String, b: bool)
    ensures
        final(out)@ == old(out)@ + spec_json_bool(b),
{
    if b {
        out.append("true");
    } else {
        out.append("false");
    }
}

/// Appends the decimal rendering of `n` to `out`.
pub fn append_json_u64(out: &mut String, n: u64)
    ensures
        final(out)@ == old(out)@ + spec_u64_dec(n as nat),
{
    let dec = crate::strutil::u64_to_string(n);
    out.append(dec.as_str());
}

/// Appends a labelled optional string field: nothing when `v` is absent.
pub fn append_json_opt_field(out: &mut String, label: &str, v: &Option<String>)
    ensures
        final(out)@ == old(out)@ + spec_json_opt_field(label@, crate::rows::opt_view(*v)),
{
    match v {
        Option::None => {},
        Option::Some(s) => {
            out.append(label);
            append_json_string(out, s.as_str());
            proof {
                assert(out@ =~= old(out)@ + spec_json_opt_field(label@, crate::rows::opt_view(*v)));
            }
        },
    }
}

/// Appends a labelled optional boolean field: nothing when `v` is absent.
pub fn append_json_opt_bool_field(out: &mut String, label: &str, v: &Option<bool>)
    ensures
        final(out)@ == old(out)@ + spec_json_opt_bool_field(label@, *v),
{
    match v {
        Option::None => {},
        Option::Some(b) => {
            out.append(label);
            append_json_bool(out, *b);
            proof {
                assert(out@ =~= old(out)@ + spec_json_opt_bool_field(label@, *v));
            }
        },
    }
}

/// Appends a labelled optional number field: nothing when `v` is absent.
pub fn append_json_opt_u64_field(out: &mut String, label: &str, v: &Option<u64>)
    ensures
        final(out)@ == old(out)@ + spec_json_opt_u64_field(label@, *v),
{
    match v {
        Option::None => {},
        Option::Some(n) => {
            out.append(label);
            append_json_u64(out, *n);
            proof {
                assert(out@ =~= old(out)@ + spec_json_opt_u64_field(label@, *v));
            }
        },
    }
}

} // verus!
