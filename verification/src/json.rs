//! JSON rendering of transaction lists, the form in which a block's
//! transactions enter its hash preimage: objects with the six fields in
//! declaration order, numbers in decimal, strings escaped as JSON requires.

use crate::text::{dec_of, push_char, u128_to_dec};
use crate::transaction::Transaction;
use vstd::prelude::*;

verus! {

/// The character for one lowercase hex digit.
pub open spec fn hex_digit(d: int) -> char
    recommends
        0 <= d < 16,
{
    if d == 0 {
        '0'
    } else if d == 1 {
        '1'
    } else if d == 2 {
        '2'
    } else if d == 3 {
        '3'
    } else if d == 4 {
        '4'
    } else if d == 5 {
        '5'
    } else if d == 6 {
        '6'
    } else if d == 7 {
        '7'
    } else if d == 8 {
        '8'
    } else if d == 9 {
        '9'
    } else if d == 10 {
        'a'
    } else if d == 11 {
        'b'
    } else if d == 12 {
        'c'
    } else if d == 13 {
        'd'
    } else if d == 14 {
        'e'
    } else {
        'f'
    }
}

/// How one character appears inside a JSON string literal: quote and
/// backslash escaped, control characters by their short escape where one
/// exists and as `\u00..` otherwise, everything else verbatim.
pub open spec fn esc_char(c: char) -> Seq<char> {
    if c == '"' {
        seq!['\\', '"']
    } else if c == '\\' {
        seq!['\\', '\\']
    } else if c == '\u{8}' {
        seq!['\\', 'b']
    } else if c == '\u{c}' {
        seq!['\\', 'f']
    } else if c == '\n' {
        seq!['\\', 'n']
    } else if c == '\r' {
        seq!['\\', 'r']
    } else if c == '\t' {
        seq!['\\', 't']
    } else if (c as u32) < 32 {
        seq!['\\', 'u', '0', '0', hex_digit(c as u32 as int / 16), hex_digit(c as u32 as int % 16)]
    } else {
        seq![c]
    }
}

/// A whole character sequence escaped for a JSON string literal.
pub open spec fn json_escaped(s: Seq<char>) -> Seq<char>
    decreases s.len(),
{
    if s.len() == 0 {
        Seq::<char>::empty()
    } else {
        json_escaped(s.drop_last()) + esc_char(s.last())
    }
}

/// The JSON object for one transaction, fields in declaration order.
pub open spec fn json_of_tx(t: Transaction) -> Seq<char> {
    "{\"addr\":\""@ + json_escaped(t.addr@) + "\",\"to\":\""@ + json_escaped(t.to@)
        + "\",\"amount\":"@ + dec_of(t.amount as int) + ",\"timestamp\":"@ + dec_of(
        t.timestamp as int,
    ) + ",\"fee\":"@ + dec_of(t.fee as int) + ",\"hash\":\""@ + json_escaped(t.hash@) + "\"}"@
}

/// The comma-separated objects of a transaction list, without the brackets.
pub open spec fn json_join(txs: Seq<Transaction>) -> Seq<char>
    decreases txs.len(),
{
    if txs.len() == 0 {
        Seq::<char>::empty()
    } else if txs.len() == 1 {
        json_of_tx(txs[0])
    } else {
        json_join(txs.drop_last()) + ","@ + json_of_tx(txs.last())
    }
}

/// The JSON array for a transaction list.
pub open spec fn json_of_txs(txs: Seq<Transaction>) -> Seq<char> {
    "["@ + json_join(txs) + "]"@
}

fn hex_digit_char(d: u8) -> (r: char)
    requires
        d < 16,
    ensures
        r == hex_digit(d as int),
{
    match d {
        0 => '0',
        1 => '1',
        2 => '2',
        3 => '3',
        4 => '4',
        5 => '5',
        6 => '6',
        7 => '7',
        8 => '8',
        9 => '9',
        10 => 'a',
        11 => 'b',
        12 => 'c',
        13 => 'd',
        14 => 'e',
        _ => 'f',
    }
}

fn append_escaped_char(out: &mut String, c: char)
    ensures
        final(out)@ == old(out)@ + esc_char(c),
{
    if c == '"' {
        out.append("\\\"");
        proof {
            reveal_strlit("\\\"");
            assert(old(out)@ + "\\\""@ =~= old(out)@ + esc_char(c));
        }
    } else if c == '\\' {
        out.append("\\\\");
        proof {
            reveal_strlit("\\\\");
            assert(old(out)@ + "\\\\"@ =~= old(out)@ + esc_char(c));
        }
    } else if c == '\u{8}' {
        out.append("\\b");
        proof {
            reveal_strlit("\\b");
            assert(old(out)@ + "\\b"@ =~= old(out)@ + esc_char(c));
        }
    } else if c == '\u{c}' {
        out.append("\\f");
        proof {
            reveal_strlit("\\f");
            assert(old(out)@ + "\\f"@ =~= old(out)@ + esc_char(c));
        }
    } else if c == '\n' {
        out.append("\\n");
        proof {
            reveal_strlit("\\n");
            assert(old(out)@ + "\\n"@ =~= old(out)@ + esc_char(c));
        }
    } else if c == '\r' {
        out.append("\\r");
        proof {
            reveal_strlit("\\r");
            assert(old(out)@ + "\\r"@ =~= old(out)@ + esc_char(c));
        }
    } else if c == '\t' {
        out.append("\\t");
        proof {
            reveal_strlit("\\t");
            assert(old(out)@ + "\\t"@ =~= old(out)@ + esc_char(c));
        }
    } else if (c as u32) < 32 {
        let x = c as u32;
        out.append("\\u00");
        push_char(out, hex_digit_char((x / 16) as u8));
        push_char(out, hex_digit_char((x % 16) as u8));
        proof {
            reveal_strlit("\\u00");
            assert(old(out)@ + "\\u00"@ + seq![hex_digit(x as int / 16)] + seq![
                hex_digit(x as int % 16),
            ] =~= old(out)@ + esc_char(c));
        }
    } else {
        push_char(out, c);
        proof {
            assert(old(out)@ + seq![c] =~= old(out)@ + esc_char(c));
        }
    }
}

proof fn lemma_json_escaped_step(s: Seq<char>, i: int)
    requires
        0 <= i < s.len(),
    ensures
        json_escaped(s.take(i + 1)) == json_escaped(s.take(i)) + esc_char(s[i]),
{
    assert(s.take(i + 1).drop_last() =~= s.take(i));
    assert(s.take(i + 1).last() == s[i]);
}

/// Appends the escaped form of `s` onto `out`.
fn append_json_escaped(out: &mut String, s: &str)
    ensures
        final(out)@ == old(out)@ + json_escaped(s@),
{
    let n = s.unicode_len();
    let mut i: usize = 0;
    while i < n
        invariant
            n == s@.len(),
            i <= n,
            out@ == old(out)@ + json_escaped(s@.take(i as int)),
        decreases n - i,
    {
        let c = s.get_char(i);
        append_escaped_char(out, c);
        proof {
            lemma_json_escaped_step(s@, i as int);
        }
        i += 1;
    }
    proof {
        assert(s@.take(n as int) =~= s@);
    }
}

/// Appends the JSON object of one transaction onto `out`.
fn append_tx_json(out: &mut String, t: &Transaction)
    ensures
        final(out)@ == old(out)@ + json_of_tx(*t),
{
    out.append("{\"addr\":\"");
    append_json_escaped(out, t.addr.as_str());
    out.append("\",\"to\":\"");
    append_json_escaped(out, t.to.as_str());
    out.append("\",\"amount\":");
    let amount_dec = u128_to_dec(t.amount);
    out.append(amount_dec.as_str());
    out.append(",\"timestamp\":");
    let timestamp_dec = u128_to_dec(t.timestamp);
    out.append(timestamp_dec.as_str());
    out.append(",\"fee\":");
    let fee_dec = u128_to_dec(t.fee as u128);
    out.append(fee_dec.as_str());
    out.append(",\"hash\":\"");
    append_json_escaped(out, t.hash.as_str());
    out.append("\"}");
    proof {
        assert(out@ =~= old(out)@ + json_of_tx(*t));
    }
}

/// Renders a transaction list as the JSON array that enters a block's hash
/// preimage.
pub fn transactions_to_json(txs: &Vec<Transaction>) -> (s: String)
    ensures
        s@ == json_of_txs(txs@),
{
    let mut s = String::new();
    s.append("[");
    let n = txs.len();
    let mut i: usize = 0;
    while i < n
        invariant
            n == txs@.len(),
            i <= n,
            s@ == "["@ + json_join(txs@.take(i as int)),
        decreases n - i,
    {
        if i > 0 {
            s.append(",");
        }
        append_tx_json(&mut s, &txs[i]);
        proof {
            let prefix = txs@.take(i as int);
            let next = txs@.take(i + 1);
            assert(next.drop_last() =~= prefix);
            assert(next.last() == txs@[i as int]);
            if i == 0 {
                assert(next =~= seq![txs@[0]]);
                assert(json_join(next) == json_of_tx(txs@[0]));
                assert(s@ =~= "["@ + json_join(next));
            } else {
                assert(json_join(next) == json_join(prefix) + ","@ + json_of_tx(txs@[i as int]));
                assert(s@ =~= "["@ + json_join(next));
            }
        }
        i += 1;
    }
    s.append("]");
    proof {
        assert(txs@.take(n as int) =~= txs@);
        assert(s@ =~= json_of_txs(txs@));
    }
    s
}

} // verus!
