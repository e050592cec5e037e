//! The transfer serializer: renders a sequence of items as one JSON array,
//! an object with `title` and `state` fields per item, `[]` for no items.
//! The text is built character by character and proved equal to the
//! specification-level rendering `json_items`.

use vstd::prelude::*;

verus! {

use vstd::string::StrSliceExecFns;
use crate::item::Item;
use crate::item::items_view;

/// The lower-case hexadecimal digit for `n` below sixteen.
pub open spec fn hex_digit(n: u32) -> char {
    if n < 10 {
        ((n + 48) as u8) as char
    } else {
        ((n + 87) as u8) as char
    }
}

/// How one character appears inside a JSON string literal: quote and
/// backslash get a backslash escape, control characters a `\u00` escape,
/// every other character stands as itself.
pub open spec fn escape_char(c: char) -> Seq<char> {
    if c == '"' {
        seq!['\\', '"']
    } else if c == '\\' {
        seq!['\\', '\\']
    } else if (c as u32) < 32 {
        seq!['\\', 'u', '0', '0', hex_digit((c as u32) / 16), hex_digit((c as u32) % 16)]
    } else {
        seq![c]
    }
}

/// A whole string's characters, escaped in order.
pub open spec fn escape_string(s: Seq<char>) -> Seq<char>
    decreases s.len(),
{
    if s.len() == 0 {
        Seq::empty()
    } else {
        escape_char(s[0]) + escape_string(s.drop_first())
    }
}

/// A JSON string literal holding `s`.
pub open spec fn json_string(s: Seq<char>) -> Seq<char> {
    seq!['"'] + escape_string(s) + seq!['"']
}

/// A JSON object carrying one row's title and state.
pub open spec fn json_item(r: (Seq<char>, Seq<char>)) -> Seq<char> {
    seq!['{', '"', 't', 'i', 't', 'l', 'e', '"', ':'] + json_string(r.0) + seq![
        ',',
        '"',
        's',
        't',
        'a',
        't',
        'e',
        '"',
        ':',
    ] + json_string(r.1) + seq!['}']
}

/// Every row after the first, each preceded by a comma.
pub open spec fn json_items_tail(rows: Seq<(Seq<char>, Seq<char>)>) -> Seq<char>
    decreases rows.len(),
{
    if rows.len() == 0 {
        Seq::empty()
    } else {
        seq![','] + json_item(rows[0]) + json_items_tail(rows.drop_first())
    }
}

/// The JSON array holding the rows in order; `[]` when there are none.
pub open spec fn json_items(rows: Seq<(Seq<char>, Seq<char>)>) -> Seq<char> {
    if rows.len() == 0 {
        seq!['[', ']']
    } else {
        seq!['['] + json_item(rows[0]) + json_items_tail(rows.drop_first()) + seq![']']
    }
}

proof fn lemma_escape_snoc(s: Seq<char>, c: char)
    ensures
        escape_string(s.push(c)) == escape_string(s) + escape_char(c),
    decreases s.len(),
{
    let t = s.push(c);
    if s.len() == 0 {
        assert(t.drop_first() =~= Seq::<char>::empty());
        assert(t[0] == c);
        assert(escape_string(Seq::<char>::empty()) == Seq::<char>::empty());
        assert(escape_string(t) == escape_char(c) + escape_string(t.drop_first()));
        assert(escape_string(t) =~= escape_string(s) + escape_char(c));
    } else {
        assert(t[0] == s[0]);
        assert(t.drop_first() =~= s.drop_first().push(c));
        lemma_escape_snoc(s.drop_first(), c);
        assert(escape_string(t) == escape_char(s[0]) + escape_string(s.drop_first().push(c)));
        assert(escape_string(s) == escape_char(s[0]) + escape_string(s.drop_first()));
        assert(escape_string(t) =~= escape_string(s) + escape_char(c));
    }
}

proof fn lemma_tail_snoc(rows: Seq<(Seq<char>, Seq<char>)>, r: (Seq<char>, Seq<char>))
    ensures
        json_items_tail(rows.push(r)) == json_items_tail(rows) + seq![','] + json_item(r),
    decreases rows.len(),
{
    let t = rows.push(r);
    if rows.len() == 0 {
        assert(t.drop_first() =~= Seq::<(Seq<char>, Seq<char>)>::empty());
        assert(t[0] == r);
        assert(json_items_tail(Seq::<(Seq<char>, Seq<char>)>::empty()) == Seq::<char>::empty());
        assert(json_items_tail(t) == seq![','] + json_item(r) + json_items_tail(t.drop_first()));
        assert(json_items_tail(t) =~= json_items_tail(rows) + seq![','] + json_item(r));
    } else {
        assert(t[0] == rows[0]);
        assert(t.drop_first() =~= rows.drop_first().push(r));
        lemma_tail_snoc(rows.drop_first(), r);
        assert(json_items_tail(t) == seq![','] + json_item(rows[0]) + json_items_tail(
            rows.drop_first().push(r),
        ));
        assert(json_items_tail(rows) == seq![','] + json_item(rows[0]) + json_items_tail(
            rows.drop_first(),
        ));
        assert(json_items_tail(t) =~= json_items_tail(rows) + seq![','] + json_item(r));
    }
}

/// Relies on String::push, which appends exactly one character.
#[verifier::external_body]
fn push_char(out: &mut String, c: char)
    ensures
        final(out)@ == old(out)@.push(c),
{
    out.push(c);
}

fn hex_digit_exec(n: u32) -> (c: char)
    requires
        n < 16,
    ensures
        c == hex_digit(n),
{
    if n < 10 {
        ((n + 48) as u8) as char
    } else {
        ((n + 87) as u8) as char
    }
}

fn push_escaped(out: &mut String, s: &str)
    ensures
        final(out)@ == old(out)@ + escape_string(s@),
{
    let n = s.unicode_len();
    for i in 0..n
        invariant
            n == s@.len(),
            out@ == old(out)@ + escape_string(s@.take(i as int)),
    {
        let c = s.get_char(i);
        let ghost before = out@;
        if c == '"' {
            push_char(out, '\\');
            push_char(out, '"');
        } else if c == '\\' {
            push_char(out, '\\');
            push_char(out, '\\');
        } else if (c as u32) < 32 {
            let v = c as u32;
            push_char(out, '\\');
            push_char(out, 'u');
            push_char(out, '0');
            push_char(out, '0');
            push_char(out, hex_digit_exec(v / 16));
            push_char(out, hex_digit_exec(v % 16));
        } else {
            push_char(out, c);
        }
        proof {
            assert(out@ =~= before + escape_char(c));
            assert(s@.take(i + 1 as int) =~= s@.take(i as int).push(s@[i as int]));
            lemma_escape_snoc(s@.take(i as int), s@[i as int]);
            assert(out@ =~= old(out)@ + escape_string(s@.take(i + 1 as int)));
        }
    }
    proof {
        assert(s@.take(n as int) =~= s@);
    }
}

fn push_json_string(out: &mut String, s: &str)
    ensures
        final(out)@ == old(out)@ + json_string(s@),
{
    push_char(out, '"');
    push_escaped(out, s);
    push_char(out, '"');
    proof {
        assert(out@ =~= old(out)@ + json_string(s@));
    }
}

fn push_json_item(out: &mut String, it: &Item)
    ensures
        final(out)@ == old(out)@ + json_item(it@),
{
    push_char(out, '{');
    push_char(out, '"');
    push_char(out, 't');
    push_char(out, 'i');
    push_char(out, 't');
    push_char(out, 'l');
    push_char(out, 'e');
    push_char(out, '"');
    push_char(out, ':');
    push_json_string(out, it.title.as_str());
    push_char(out, ',');
    push_char(out, '"');
    push_char(out, 's');
    push_char(out, 't');
    push_char(out, 'a');
    push_char(out, 't');
    push_char(out, 'e');
    push_char(out, '"');
    push_char(out, ':');
    push_json_string(out, it.state.as_str());
    push_char(out, '}');
    proof {
        assert(out@ =~= old(out)@ + json_item(it@));
    }
}

/// Renders the items as one JSON array, in order; `[]` for no items.
pub fn items_to_json(items: &Vec<Item>) -> (r: String)
    ensures
        r@ == json_items(items_view(items@)),
{
    let ghost rows = items_view(items@);
    let mut out = String::new();
    push_char(&mut out, '[');
    let n = items.len();
    if n > 0 {
        push_json_item(&mut out, &items[0]);
        for i in 1..n
            invariant
                n == items.len(),
                rows == items_view(items@),
                rows.len() == n,
                out@ == seq!['['] + json_item(rows[0]) + json_items_tail(
                    rows.subrange(1, i as int),
                ),
        {
            let ghost before = out@;
            push_char(&mut out, ',');
            push_json_item(&mut out, &items[i]);
            proof {
                assert(out@ =~= before + seq![','] + json_item(rows[i as int]));
                assert(rows.subrange(1, i + 1 as int) =~= rows.subrange(1, i as int).push(
                    rows[i as int],
                ));
                lemma_tail_snoc(rows.subrange(1, i as int), rows[i as int]);
                assert(out@ =~= seq!['['] + json_item(rows[0]) + json_items_tail(
                    rows.subrange(1, i + 1 as int),
                ));
            }
        }
        proof {
            assert(rows.subrange(1, n as int) =~= rows.drop_first());
        }
    }
    push_char(&mut out, ']');
    proof {
        if rows.len() == 0 {
            assert(out@ =~= json_items(rows));
        } else {
            assert(out@ =~= json_items(rows));
        }
    }
    out
}

} // verus!
