//! Canonical compact JSON encoding of the library's records.
//!
//! Records are encoded as compact JSON objects whose fields appear in
//! declaration order, maps as objects in key order, sets and vectors as
//! arrays, and texts as JSON strings with the minimal escapes (`\"`, `\\`,
//! `\b`, `\f`, `\n`, `\r`, `\t`, `\u00xx` for the other control bytes).
//! Every digest in the library is the SHA-256 of such an encoding.
use crate::collections::{entry_keys, TextMap, TextSet};
use vstd::prelude::*;
use vstd::utf8::encode_utf8;

verus! {

pub open spec fn hex_nibble(n: u8) -> u8 {
    if n < 10 {
        (48 + n) as u8
    } else {
        (87 + n) as u8
    }
}

/// The JSON string escape of one UTF-8 byte.
pub open spec fn esc_byte(b: u8) -> Seq<u8> {
    if b == 0x22 {
        seq![0x5cu8, 0x22u8]
    } else if b == 0x5c {
        seq![0x5cu8, 0x5cu8]
    } else if b == 0x08 {
        seq![0x5cu8, 0x62u8]
    } else if b == 0x0c {
        seq![0x5cu8, 0x66u8]
    } else if b == 0x0a {
        seq![0x5cu8, 0x6eu8]
    } else if b == 0x0d {
        seq![0x5cu8, 0x72u8]
    } else if b == 0x09 {
        seq![0x5cu8, 0x74u8]
    } else if b < 0x20 {
        seq![0x5cu8, 0x75u8, 0x30u8, 0x30u8, hex_nibble(b / 16), hex_nibble(b % 16)]
    } else {
        seq![b]
    }
}

pub open spec fn esc_bytes(s: Seq<u8>) -> Seq<u8>
    decreases s.len(),
{
    if s.len() == 0 {
        Seq::empty()
    } else {
        esc_bytes(s.drop_last()) + esc_byte(s.last())
    }
}

/// A text as a JSON string.
pub open spec fn json_text(s: Seq<char>) -> Seq<u8> {
    seq![0x22u8] + esc_bytes(encode_utf8(s)) + seq![0x22u8]
}

/// A natural number in decimal.
pub open spec fn json_nat(n: nat) -> Seq<u8>
    decreases n,
{
    if n < 10 {
        seq![(48 + n) as u8]
    } else {
        json_nat(n / 10) + seq![(48 + n % 10) as u8]
    }
}

pub open spec fn json_bool(b: bool) -> Seq<u8> {
    if b {
        seq![0x74u8, 0x72u8, 0x75u8, 0x65u8]
    } else {
        seq![0x66u8, 0x61u8, 0x6cu8, 0x73u8, 0x65u8]
    }
}

pub open spec fn json_null() -> Seq<u8> {
    seq![0x6eu8, 0x75u8, 0x6cu8, 0x6cu8]
}

/// The bytes of a fixed piece of text.
pub open spec fn lit(s: &str) -> Seq<u8> {
    encode_utf8(s@)
}

/// Items separated by commas.
pub open spec fn join(items: Seq<Seq<u8>>) -> Seq<u8>
    decreases items.len(),
{
    if items.len() == 0 {
        Seq::empty()
    } else if items.len() == 1 {
        items[0]
    } else {
        join(items.drop_last()) + seq![0x2cu8] + items.last()
    }
}

pub open spec fn json_list(items: Seq<Seq<u8>>) -> Seq<u8> {
    seq![0x5bu8] + join(items) + seq![0x5du8]
}

pub open spec fn json_text_list(texts: Seq<Seq<char>>) -> Seq<u8> {
    json_list(texts.map_values(|t: Seq<char>| json_text(t)))
}

pub open spec fn json_member(key: Seq<char>, value: Seq<u8>) -> Seq<u8> {
    json_text(key) + seq![0x3au8] + value
}

pub open spec fn json_object(members: Seq<Seq<u8>>) -> Seq<u8> {
    seq![0x7bu8] + join(members) + seq![0x7du8]
}

pub open spec fn json_nat_map(e: Seq<(Seq<char>, u64)>) -> Seq<u8> {
    json_object(e.map_values(|p: (Seq<char>, u64)| json_member(p.0, json_nat(p.1 as nat))))
}

pub open spec fn json_text_map(e: Seq<(Seq<char>, String)>) -> Seq<u8> {
    json_object(e.map_values(|p: (Seq<char>, String)| json_member(p.0, json_text(p.1@))))
}

pub proof fn lemma_join_push(items: Seq<Seq<u8>>, x: Seq<u8>)
    ensures
        join(items.push(x)) == if items.len() == 0 {
            x
        } else {
            join(items) + seq![0x2cu8] + x
        },
{
    assert(items.push(x).drop_last() =~= items);
}

/// Appends the bytes of a fixed piece of text.
pub fn push_lit(out: &mut Vec<u8>, s: &str)
    ensures
        final(out)@ == old(out)@ + lit(s),
{
    let bytes = s.as_bytes();
    let n = bytes.len();
    for i in 0..n
        invariant
            n == bytes@.len(),
            bytes@ == lit(s),
            out@ == old(out)@ + bytes@.subrange(0, i as int),
    {
        out.push(bytes[i]);
        proof {
            assert(bytes@.subrange(0, i + 1) =~= bytes@.subrange(0, i as int).push(bytes@[i as int]));
        }
    }
    proof {
        assert(bytes@.subrange(0, n as int) =~= bytes@);
    }
}

fn nibble(n: u8) -> (r: u8)
    requires
        n < 16,
    ensures
        r == hex_nibble(n),
{
    if n < 10 {
        48 + n
    } else {
        87 + n
    }
}

fn push_escaped_byte(out: &mut Vec<u8>, b: u8)
    ensures
        final(out)@ == old(out)@ + esc_byte(b),
{
    let ghost start = out@;
    if b == 0x22 {
        out.push(0x5c);
        out.push(0x22);
    } else if b == 0x5c {
        out.push(0x5c);
        out.push(0x5c);
    } else if b == 0x08 {
        out.push(0x5c);
        out.push(0x62);
    } else if b == 0x0c {
        out.push(0x5c);
        out.push(0x66);
    } else if b == 0x0a {
        out.push(0x5c);
        out.push(0x6e);
    } else if b == 0x0d {
        out.push(0x5c);
        out.push(0x72);
    } else if b == 0x09 {
        out.push(0x5c);
        out.push(0x74);
    } else if b < 0x20 {
        out.push(0x5c);
        out.push(0x75);
        out.push(0x30);
        out.push(0x30);
        out.push(nibble(b / 16));
        out.push(nibble(b % 16));
    } else {
        out.push(b);
    }
    proof {
        assert(out@ =~= start + esc_byte(b));
    }
}

/// Appends `s` as a JSON string.
pub fn push_text(out: &mut Vec<u8>, s: &str)
    ensures
        final(out)@ == old(out)@ + json_text(s@),
{
    let bytes = s.as_bytes();
    let n = bytes.len();
    out.push(0x22);
    let ghost start = out@;
    for i in 0..n
        invariant
            n == bytes@.len(),
            bytes@ == encode_utf8(s@),
            out@ == start + esc_bytes(bytes@.subrange(0, i as int)),
    {
        push_escaped_byte(out, bytes[i]);
        proof {
            let prefix = bytes@.subrange(0, i + 1);
            assert(prefix.drop_last() =~= bytes@.subrange(0, i as int));
            assert(prefix.last() == bytes@[i as int]);
            assert(out@ =~= start + esc_bytes(prefix));
        }
    }
    out.push(0x22);
    proof {
        assert(bytes@.subrange(0, n as int) =~= bytes@);
        assert(out@ =~= old(out)@ + json_text(s@));
    }
}

/// Appends a natural number in decimal.
pub fn push_nat(out: &mut Vec<u8>, n: u64)
    ensures
        final(out)@ == old(out)@ + json_nat(n as nat),
    decreases n,
{
    if n >= 10 {
        push_nat(out, n / 10);
    }
    let digit = (n % 10) as u8;
    out.push(48 + digit);
    proof {
        if n >= 10 {
            assert(out@ =~= old(out)@ + json_nat(n as nat));
        } else {
            assert(out@ =~= old(out)@ + json_nat(n as nat));
        }
    }
}

pub fn push_bool(out: &mut Vec<u8>, b: bool)
    ensures
        final(out)@ == old(out)@ + json_bool(b),
{
    let ghost start = out@;
    if b {
        out.push(0x74);
        out.push(0x72);
        out.push(0x75);
        out.push(0x65);
    } else {
        out.push(0x66);
        out.push(0x61);
        out.push(0x6c);
        out.push(0x73);
        out.push(0x65);
    }
    proof {
        assert(out@ =~= start + json_bool(b));
    }
}

pub fn push_null(out: &mut Vec<u8>)
    ensures
        final(out)@ == old(out)@ + json_null(),
{
    let ghost start = out@;
    out.push(0x6e);
    out.push(0x75);
    out.push(0x6c);
    out.push(0x6c);
    proof {
        assert(out@ =~= start + json_null());
    }
}

/// Appends a set of texts as a JSON array in byte order.
pub fn push_text_set(out: &mut Vec<u8>, set: &TextSet)
    ensures
        final(out)@ == old(out)@ + json_text_list(set@),
{
    let ghost items = set@.map_values(|t: Seq<char>| json_text(t));
    out.push(0x5b);
    let ghost start = out@;
    let n = set.len();
    for i in 0..n
        invariant
            n == set@.len(),
            items == set@.map_values(|t: Seq<char>| json_text(t)),
            out@ == start + join(items.subrange(0, i as int)),
    {
        if i > 0 {
            out.push(0x2c);
        }
        push_text(out, set.get(i).as_str());
        proof {
            lemma_join_push(items.subrange(0, i as int), items[i as int]);
            assert(items.subrange(0, i + 1) =~= items.subrange(0, i as int).push(items[i as int]));
            assert(out@ =~= start + join(items.subrange(0, i + 1)));
        }
    }
    out.push(0x5d);
    proof {
        assert(items.subrange(0, n as int) =~= items);
        assert(out@ =~= old(out)@ + json_text_list(set@));
    }
}

/// Appends a vector of texts as a JSON array.
pub fn push_text_vec(out: &mut Vec<u8>, v: &Vec<String>)
    ensures
        final(out)@ == old(out)@ + json_text_list(v@.map_values(|s: String| s@)),
{
    let ghost texts = v@.map_values(|s: String| s@);
    let ghost items = texts.map_values(|t: Seq<char>| json_text(t));
    out.push(0x5b);
    let ghost start = out@;
    let n = v.len();
    for i in 0..n
        invariant
            n == v@.len(),
            texts == v@.map_values(|s: String| s@),
            items == texts.map_values(|t: Seq<char>| json_text(t)),
            out@ == start + join(items.subrange(0, i as int)),
    {
        if i > 0 {
            out.push(0x2c);
        }
        push_text(out, v[i].as_str());
        proof {
            lemma_join_push(items.subrange(0, i as int), items[i as int]);
            assert(items.subrange(0, i + 1) =~= items.subrange(0, i as int).push(items[i as int]));
            assert(out@ =~= start + join(items.subrange(0, i + 1)));
        }
    }
    out.push(0x5d);
    proof {
        assert(items.subrange(0, n as int) =~= items);
        assert(out@ =~= old(out)@ + json_text_list(texts));
    }
}

/// Appends a map from texts to numbers as a JSON object in key order.
pub fn push_nat_map(out: &mut Vec<u8>, map: &TextMap<u64>)
    ensures
        final(out)@ == old(out)@ + json_nat_map(map@),
{
    let ghost items = map@.map_values(|p: (Seq<char>, u64)| json_member(p.0, json_nat(p.1 as nat)));
    out.push(0x7b);
    let ghost start = out@;
    let n = map.len();
    for i in 0..n
        invariant
            n == map@.len(),
            items == map@.map_values(|p: (Seq<char>, u64)| json_member(p.0, json_nat(p.1 as nat))),
            out@ == start + join(items.subrange(0, i as int)),
    {
        if i > 0 {
            out.push(0x2c);
        }
        let ghost before = out@;
        push_text(out, map.key_at(i).as_str());
        out.push(0x3a);
        push_nat(out, *map.value_at(i));
        proof {
            assert(out@ =~= before + items[i as int]);
            lemma_join_push(items.subrange(0, i as int), items[i as int]);
            assert(items.subrange(0, i + 1) =~= items.subrange(0, i as int).push(items[i as int]));
            assert(out@ =~= start + join(items.subrange(0, i + 1)));
        }
    }
    out.push(0x7d);
    proof {
        assert(items.subrange(0, n as int) =~= items);
        assert(out@ =~= old(out)@ + json_nat_map(map@));
    }
}

/// Appends a map from texts to texts as a JSON object in key order.
pub fn push_text_map(out: &mut Vec<u8>, map: &TextMap<String>)
    ensures
        final(out)@ == old(out)@ + json_text_map(map@),
{
    let ghost items = map@.map_values(|p: (Seq<char>, String)| json_member(p.0, json_text(p.1@)));
    out.push(0x7b);
    let ghost start = out@;
    let n = map.len();
    for i in 0..n
        invariant
            n == map@.len(),
            items == map@.map_values(|p: (Seq<char>, String)| json_member(p.0, json_text(p.1@))),
            out@ == start + join(items.subrange(0, i as int)),
    {
        if i > 0 {
            out.push(0x2c);
        }
        let ghost before = out@;
        push_text(out, map.key_at(i).as_str());
        out.push(0x3a);
        push_text(out, map.value_at(i).as_str());
        proof {
            assert(out@ =~= before + items[i as int]);
            lemma_join_push(items.subrange(0, i as int), items[i as int]);
            assert(items.subrange(0, i + 1) =~= items.subrange(0, i as int).push(items[i as int]));
            assert(out@ =~= start + join(items.subrange(0, i + 1)));
        }
    }
    out.push(0x7d);
    proof {
        assert(items.subrange(0, n as int) =~= items);
        assert(out@ =~= old(out)@ + json_text_map(map@));
    }
}

} // verus!
