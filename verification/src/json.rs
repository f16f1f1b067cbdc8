//! The secrets-file format: a JSON array of `{"key":…,"value":…}`
//! objects, in the canonical form the tool writes — no whitespace, and
//! the escapes `\" \\ \b \t \n \f \r` plus `\u00XX` for the remaining
//! control characters.
//!
//! The encoder's output is pinned character by character; the parser
//! accepts a text only when it is exactly the encoding of the list it
//! returns.
use vstd::prelude::*;
use vstd::string::*;
use crate::item::Secret;
use crate::strutil;

verus! {

/// The character for one hexadecimal digit, lower case.
pub open spec fn hex_digit(d: nat) -> char {
    if d == 0 {
        '0'
    } else if d == 1 {
        '1'
    } else if d == 2 {
        '2'
    } else if d == 3 {
        '3'
    } else if d == 4 {
        '4'
    } else if d == 5 {
        '5'
    } else if d == 6 {
        '6'
    } else if d == 7 {
        '7'
    } else if d == 8 {
        '8'
    } else if d == 9 {
        '9'
    } else if d == 10 {
        'a'
    } else if d == 11 {
        'b'
    } else if d == 12 {
        'c'
    } else if d == 13 {
        'd'
    } else if d == 14 {
        'e'
    } else {
        'f'
    }
}

/// How one character appears inside a JSON string literal.
pub open spec fn escape_char(c: char) -> Seq<char> {
    if c == '"' {
        seq!['\\', '"']
    } else if c == '\\' {
        seq!['\\', '\\']
    } else if c == '\u{8}' {
        seq!['\\', 'b']
    } else if c == '\t' {
        seq!['\\', 't']
    } else if c == '\n' {
        seq!['\\', 'n']
    } else if c == '\u{c}' {
        seq!['\\', 'f']
    } else if c == '\r' {
        seq!['\\', 'r']
    } else if (c as nat) < 32 {
        seq!['\\', 'u', '0', '0', hex_digit((c as nat) / 16), hex_digit((c as nat) % 16)]
    } else {
        seq![c]
    }
}

/// How a character sequence appears inside a JSON string literal.
pub open spec fn escape_seq(s: Seq<char>) -> Seq<char>
    decreases s.len(),
{
    if s.len() == 0 {
        Seq::empty()
    } else {
        escape_seq(s.drop_last()) + escape_char(s.last())
    }
}

/// A JSON string literal: the escaped characters between quotes.
pub open spec fn json_string(s: Seq<char>) -> Seq<char> {
    seq!['"'] + escape_seq(s) + seq!['"']
}

/// One secret as its JSON object.
pub open spec fn secret_object(key: Seq<char>, value: Seq<char>) -> Seq<char> {
    seq!['{', '"', 'k', 'e', 'y', '"', ':'] + json_string(key) + seq![
        ',',
        '"',
        'v',
        'a',
        'l',
        'u',
        'e',
        '"',
        ':',
    ] + json_string(value) + seq!['}']
}

/// The comma-joined objects of a list of key/value pairs.
pub open spec fn items_json(l: Seq<(Seq<char>, Seq<char>)>) -> Seq<char>
    decreases l.len(),
{
    if l.len() == 0 {
        Seq::empty()
    } else if l.len() == 1 {
        secret_object(l[0].0, l[0].1)
    } else {
        items_json(l.drop_last()) + seq![','] + secret_object(l.last().0, l.last().1)
    }
}

/// A whole secrets file: the bracketed, comma-joined objects.
pub open spec fn secrets_json(l: Seq<(Seq<char>, Seq<char>)>) -> Seq<char> {
    seq!['['] + items_json(l) + seq![']']
}

/// The key/value pairs of a list of secrets.
pub open spec fn pairs_of(s: Seq<Secret>) -> Seq<(Seq<char>, Seq<char>)> {
    Seq::new(s.len(), |i: int| (s[i].key@, s[i].value@))
}

fn hex_digit_char(d: u32) -> (c: char)
    requires
        d < 16,
    ensures
        c == hex_digit(d as nat),
{
    match d {
        0 => '0',
        1 => '1',
        2 => '2',
        3 => '3',
        4 => '4',
        5 => '5',
        6 => '6',
        7 => '7',
        8 => '8',
        9 => '9',
        10 => 'a',
        11 => 'b',
        12 => 'c',
        13 => 'd',
        14 => 'e',
        _ => 'f',
    }
}

fn push_escaped(out: &mut Vec<char>, c: char)
    ensures
        final(out)@ == old(out)@ + escape_char(c),
{
    if c == '"' {
        out.push('\\');
        out.push('"');
    } else if c == '\\' {
        out.push('\\');
        out.push('\\');
    } else if c == '\u{8}' {
        out.push('\\');
        out.push('b');
    } else if c == '\t' {
        out.push('\\');
        out.push('t');
    } else if c == '\n' {
        out.push('\\');
        out.push('n');
    } else if c == '\u{c}' {
        out.push('\\');
        out.push('f');
    } else if c == '\r' {
        out.push('\\');
        out.push('r');
    } else if (c as u32) < 32 {
        let x = c as u32;
        out.push('\\');
        out.push('u');
        out.push('0');
        out.push('0');
        out.push(hex_digit_char(x / 16));
        out.push(hex_digit_char(x % 16));
    } else {
        out.push(c);
    }
    proof {
        assert(out@ =~= old(out)@ + escape_char(c));
    }
}

#[verifier::loop_isolation(false)]
fn push_json_string(out: &mut Vec<char>, s: &String)
    ensures
        final(out)@ == old(out)@ + json_string(s@),
{
    out.push('"');
    let cs = strutil::str_chars(s.as_str());
    let n = cs.len();
    let mut i: usize = 0;
    while i < n
        invariant
            i <= n,
            out@ == old(out)@ + seq!['"'] + escape_seq(s@.take(i as int)),
        decreases n - i,
    {
        proof {
            assert(s@.take(i + 1 as int).drop_last() =~= s@.take(i as int));
            assert(s@.take(i + 1 as int).last() == s@[i as int]);
        }
        push_escaped(out, cs[i]);
        i += 1;
    }
    out.push('"');
    proof {
        assert(s@.take(n as int) =~= s@);
        assert(out@ =~= old(out)@ + json_string(s@));
    }
}

fn push_secret_object(out: &mut Vec<char>, s: &Secret)
    ensures
        final(out)@ == old(out)@ + secret_object(s.key@, s.value@),
{
    out.push('{');
    out.push('"');
    out.push('k');
    out.push('e');
    out.push('y');
    out.push('"');
    out.push(':');
    push_json_string(out, &s.key);
    out.push(',');
    out.push('"');
    out.push('v');
    out.push('a');
    out.push('l');
    out.push('u');
    out.push('e');
    out.push('"');
    out.push(':');
    push_json_string(out, &s.value);
    out.push('}');
    proof {
        assert(out@ =~= old(out)@ + secret_object(s.key@, s.value@));
    }
}

/// The comma-joined objects, read from the front; equal to
/// [`items_json`], and the shape the parser consumes.
pub open spec fn items_json_front(l: Seq<(Seq<char>, Seq<char>)>) -> Seq<char>
    decreases l.len(),
{
    if l.len() == 0 {
        Seq::empty()
    } else if l.len() == 1 {
        secret_object(l[0].0, l[0].1)
    } else {
        secret_object(l[0].0, l[0].1) + seq![','] + items_json_front(l.drop_first())
    }
}

proof fn lemma_items_front_snoc(l: Seq<(Seq<char>, Seq<char>)>)
    requires
        l.len() >= 2,
    ensures
        items_json_front(l) == items_json_front(l.drop_last()) + seq![','] + secret_object(
            l.last().0,
            l.last().1,
        ),
    decreases l.len(),
{
    if l.len() == 2 {
        assert(l.drop_first().len() == 1);
        assert(l.drop_last().len() == 1);
        assert(l.drop_first()[0] == l[1]);
        assert(l.drop_last()[0] == l[0]);
        assert(items_json_front(l) == secret_object(l[0].0, l[0].1) + seq![',']
            + items_json_front(l.drop_first()));
        assert(items_json_front(l.drop_first()) == secret_object(l[1].0, l[1].1));
        assert(items_json_front(l.drop_last()) == secret_object(l[0].0, l[0].1));
        assert(l.last() == l[1]);
        assert(items_json_front(l) =~= items_json_front(l.drop_last()) + seq![',']
            + secret_object(l.last().0, l.last().1));
    } else {
        let df = l.drop_first();
        lemma_items_front_snoc(df);
        assert(df.drop_last() =~= l.drop_last().drop_first());
        assert(df.last() == l.last());
        assert(l.drop_last().len() >= 2);
        assert(l.drop_last()[0] == l[0]);
        let a = secret_object(l[0].0, l[0].1);
        let b = secret_object(l.last().0, l.last().1);
        let x = items_json_front(df.drop_last());
        assert(items_json_front(l) == a + seq![','] + items_json_front(df));
        assert(items_json_front(df) == x + seq![','] + b);
        assert(items_json_front(l.drop_last()) == a + seq![','] + x);
        assert(a + seq![','] + (x + seq![','] + b) =~= (a + seq![','] + x) + seq![','] + b);
    }
}

proof fn lemma_items_json_eq_front(l: Seq<(Seq<char>, Seq<char>)>)
    ensures
        items_json(l) == items_json_front(l),
    decreases l.len(),
{
    if l.len() >= 2 {
        lemma_items_json_eq_front(l.drop_last());
        lemma_items_front_snoc(l);
    }
}

/// One sequence opens the other.
pub open spec fn is_prefix(a: Seq<char>, b: Seq<char>) -> bool {
    a.len() <= b.len() && b.take(a.len() as int) == a
}

proof fn lemma_skip_concat(cs: Seq<char>, pos: int, a: Seq<char>, b: Seq<char>)
    requires
        0 <= pos <= cs.len(),
        cs.skip(pos) == a + b,
    ensures
        pos + a.len() + b.len() == cs.len(),
        cs.skip(pos + a.len()) =~= b,
        is_prefix(a, cs.skip(pos)),
        forall|i: int| 0 <= i < a.len() ==> cs[pos + i] == a[i],
{
    assert(cs.skip(pos).len() == a.len() + b.len());
    assert(cs.skip(pos + a.len()) =~= b) by {
        assert forall|i: int| 0 <= i < b.len() implies cs.skip(pos + a.len())[i] == b[i] by {
            assert(cs.skip(pos + a.len())[i] == cs[pos + a.len() + i]);
            assert(cs.skip(pos)[a.len() + i] == cs[pos + (a.len() + i)]);
            assert(cs.skip(pos)[a.len() + i] == (a + b)[a.len() + i]);
        }
    }
    assert(cs.skip(pos).take(a.len() as int) =~= a);
    assert forall|i: int| 0 <= i < a.len() implies cs[pos + i] == a[i] by {
        assert(cs.skip(pos)[i] == (a + b)[i]);
    }
}

proof fn lemma_escape_seq_concat(a: Seq<char>, b: Seq<char>)
    ensures
        escape_seq(a + b) == escape_seq(a) + escape_seq(b),
    decreases b.len(),
{
    if b.len() == 0 {
        assert(a + b =~= a);
        assert(escape_seq(a) + escape_seq(b) =~= escape_seq(a));
    } else {
        lemma_escape_seq_concat(a, b.drop_last());
        assert((a + b).drop_last() =~= a + b.drop_last());
        assert((a + b).last() == b.last());
        assert(escape_seq(a) + (escape_seq(b.drop_last()) + escape_char(b.last())) =~= (
        escape_seq(a) + escape_seq(b.drop_last())) + escape_char(b.last()));
    }
}

proof fn lemma_escape_seq_first(t: Seq<char>)
    requires
        t.len() > 0,
    ensures
        escape_seq(t) == escape_char(t[0]) + escape_seq(t.drop_first()),
{
    lemma_escape_seq_concat(t.take(1), t.skip(1));
    assert(t.take(1) + t.skip(1) =~= t);
    assert(t.take(1).drop_last() =~= Seq::<char>::empty());
    assert(t.take(1).last() == t[0]);
    assert(escape_seq(Seq::<char>::empty()) == Seq::<char>::empty());
    assert(Seq::<char>::empty() + escape_char(t[0]) =~= escape_char(t[0]));
    assert(escape_seq(t.take(1)) =~= escape_char(t[0]));
    assert(t.skip(1) =~= t.drop_first());
}

proof fn lemma_escape_seq_take_snoc(t: Seq<char>, k: int)
    requires
        0 <= k < t.len(),
    ensures
        escape_seq(t.take(k + 1)) == escape_seq(t.take(k)) + escape_char(t[k]),
{
    assert(t.take(k + 1).drop_last() =~= t.take(k));
    assert(t.take(k + 1).last() == t[k]);
}

proof fn lemma_items_json_snoc(l: Seq<(Seq<char>, Seq<char>)>, i: int)
    requires
        1 <= i < l.len(),
    ensures
        items_json(l.take(i + 1)) == items_json(l.take(i)) + seq![','] + secret_object(
            l[i].0,
            l[i].1,
        ),
{
    assert(l.take(i + 1).drop_last() =~= l.take(i));
    assert(l.take(i + 1).last() == l[i]);
    assert(l.take(i + 1).len() == i + 1);
}

/// The canonical text of the secrets file holding exactly these
/// secrets, in order.
#[verifier::loop_isolation(false)]
pub fn encode_secrets(secrets: &Vec<Secret>) -> (r: String)
    ensures
        r@ == secrets_json(pairs_of(secrets@)),
{
    let ghost pairs = pairs_of(secrets@);
    let mut out: Vec<char> = Vec::new();
    out.push('[');
    proof {
        assert(pairs.take(0) =~= Seq::<(Seq<char>, Seq<char>)>::empty());
        assert(out@ =~= seq!['['] + items_json(pairs.take(0)));
    }
    let n = secrets.len();
    let mut i: usize = 0;
    while i < n
        invariant
            i <= n,
            out@ == seq!['['] + items_json(pairs.take(i as int)),
        decreases n - i,
    {
        if i > 0 {
            out.push(',');
            push_secret_object(&mut out, &secrets[i]);
            proof {
                lemma_items_json_snoc(pairs, i as int);
                assert(out@ =~= seq!['['] + items_json(pairs.take(i + 1 as int)));
            }
        } else {
            push_secret_object(&mut out, &secrets[i]);
            proof {
                assert(pairs.take(1).len() == 1);
                assert(pairs.take(1)[0] == pairs[0]);
                assert(out@ =~= seq!['['] + items_json(pairs.take(1)));
            }
        }
        i += 1;
    }
    out.push(']');
    proof {
        assert(pairs.take(n as int) =~= pairs);
        assert(out@ =~= secrets_json(pairs));
    }
    strutil::chars_string(&out)
}

fn expect_char(cs: &Vec<char>, pos: &mut usize, c: char) -> (r: bool)
    ensures
        *final(pos) == *old(pos) + if r {
            1int
        } else {
            0int
        },
        r ==> *old(pos) < cs@.len(),
        r ==> cs@[*old(pos) as int] == c,
        *old(pos) < cs@.len() && cs@[*old(pos) as int] == c ==> r,
        *old(pos) <= cs@.len() ==> *final(pos) <= cs@.len(),
{
    if *pos < cs.len() {
        if cs[*pos] == c {
            *pos = *pos + 1;
            return true;
        }
    }
    false
}


proof fn lemma_prefix_index(a: Seq<char>, cs: Seq<char>, pos: int, i: int)
    requires
        0 <= pos <= cs.len(),
        is_prefix(a, cs.skip(pos)),
        0 <= i < a.len(),
    ensures
        pos + a.len() <= cs.len(),
        cs[pos + i] == a[i],
{
    assert(cs.skip(pos).len() == cs.len() - pos);
    assert(cs.skip(pos).take(a.len() as int)[i] == a[i]);
    assert(cs.skip(pos).take(a.len() as int)[i] == cs.skip(pos)[i]);
    assert(cs.skip(pos)[i] == cs[pos + i]);
}

proof fn lemma_escape_char_shape(c: char)
    ensures
        escape_char(c).len() >= 1,
        c == '"' || c == '\\' || (c as nat) < 32 ==> (escape_char(c).len() >= 2
            && escape_char(c)[0] == '\\'),
        !(c == '"' || c == '\\' || (c as nat) < 32) ==> escape_char(c) == seq![c],
        escape_char(c)[0] != '"',
{
    if c == '"' || c == '\\' || (c as nat) < 32 {
    } else {
        assert(escape_char(c) =~= seq![c]);
    }
}

/// The characters of the object layout around the two strings.
proof fn lemma_object_layout(key: Seq<char>, value: Seq<char>)
    ensures
        secret_object(key, value) =~= seq!['{', '"', 'k', 'e', 'y', '"', ':'] + json_string(key)
            + seq![',', '"', 'v', 'a', 'l', 'u', 'e', '"', ':'] + json_string(value)
            + seq!['}'],
{
}

proof fn lemma_string_char_at(t: Seq<char>, cs: Seq<char>, start: int, k: int, j: int)
    requires
        0 <= start <= cs.len(),
        is_prefix(json_string(t), cs.skip(start)),
        0 <= k < t.len(),
        0 <= j < escape_char(t[k]).len(),
    ensures
        escape_seq(t.take(k)).len() + escape_char(t[k]).len() <= escape_seq(t).len(),
        cs[start + 1 + escape_seq(t.take(k)).len() + j] == escape_char(t[k])[j],
{
    lemma_escape_seq_concat(t.take(k), t.skip(k));
    assert(t.take(k) + t.skip(k) =~= t);
    lemma_escape_seq_first(t.skip(k));
    assert(t.skip(k)[0] == t[k]);
    let pre = escape_seq(t.take(k));
    let ec = escape_char(t[k]);
    let rest = escape_seq(t.skip(k).drop_first());
    assert(escape_seq(t) == pre + (ec + rest));
    let i: int = 1 + pre.len() as int + j;
    let js = json_string(t);
    assert(js.len() == 2 + escape_seq(t).len());
    assert(i < 1 + escape_seq(t).len());
    assert(js[i] == (seq!['"'] + escape_seq(t) + seq!['"'])[i]);
    assert((seq!['"'] + escape_seq(t) + seq!['"'])[i] == (seq!['"'] + escape_seq(t))[i]);
    assert((seq!['"'] + escape_seq(t))[i] == escape_seq(t)[i - 1]);
    assert(escape_seq(t)[i - 1] == (pre + (ec + rest))[pre.len() + j]);
    assert((pre + (ec + rest))[pre.len() + j] == (ec + rest)[j]);
    assert((ec + rest)[j] == ec[j]);
    lemma_prefix_index(js, cs, start, i);
}

proof fn lemma_string_bounds(t: Seq<char>, cs: Seq<char>, start: int, k: int)
    requires
        0 <= start <= cs.len(),
        is_prefix(json_string(t), cs.skip(start)),
        0 <= k <= t.len(),
    ensures
        escape_seq(t.take(k)).len() <= escape_seq(t).len(),
        start + json_string(t).len() <= cs.len(),
        cs[start + 1 + escape_seq(t).len()] == '"',
        cs[start] == '"',
{
    lemma_escape_seq_concat(t.take(k), t.skip(k));
    assert(t.take(k) + t.skip(k) =~= t);
    let js = json_string(t);
    assert(cs.skip(start).len() == cs.len() - start);
    assert(js[0] == '"');
    lemma_prefix_index(js, cs, start, 0);
    let i: int = 1 + escape_seq(t).len() as int;
    assert(js[i] == (seq!['"'] + escape_seq(t) + seq!['"'])[i]);
    assert((seq!['"'] + escape_seq(t) + seq!['"'])[i] == '"');
    lemma_prefix_index(js, cs, start, i);
}

proof fn lemma_char_eq(c1: char, c2: char)
    requires
        c1 as nat == c2 as nat,
    ensures
        c1 == c2,
{
    assert(c1 as int == c2 as int);
}

fn low_char(code: u32) -> (c: char)
    requires
        code < 32,
    ensures
        c as nat == code as nat,
{
    match code {
        0 => '\u{0}',
        1 => '\u{1}',
        2 => '\u{2}',
        3 => '\u{3}',
        4 => '\u{4}',
        5 => '\u{5}',
        6 => '\u{6}',
        7 => '\u{7}',
        8 => '\u{8}',
        9 => '\u{9}',
        10 => '\u{a}',
        11 => '\u{b}',
        12 => '\u{c}',
        13 => '\u{d}',
        14 => '\u{e}',
        15 => '\u{f}',
        16 => '\u{10}',
        17 => '\u{11}',
        18 => '\u{12}',
        19 => '\u{13}',
        20 => '\u{14}',
        21 => '\u{15}',
        22 => '\u{16}',
        23 => '\u{17}',
        24 => '\u{18}',
        25 => '\u{19}',
        26 => '\u{1a}',
        27 => '\u{1b}',
        28 => '\u{1c}',
        29 => '\u{1d}',
        30 => '\u{1e}',
        _ => '\u{1f}',
    }
}

#[verifier::loop_isolation(false)]
fn parse_json_string(
    cs: &Vec<char>,
    pos: &mut usize,
    Ghost(expect): Ghost<Option<Seq<char>>>,
) -> (r: Option<String>)
    requires
        *old(pos) <= cs@.len(),
        expect matches Some(t) ==> is_prefix(json_string(t), cs@.skip(*old(pos) as int)),
    ensures
        *old(pos) <= *final(pos),
        *final(pos) <= cs@.len(),
        r is Some ==> *old(pos) < *final(pos),
        expect matches Some(t) ==> (r matches Some(u) && u@ == t && *final(pos) == *old(pos)
            + json_string(t).len()),
{
    let ghost start = *pos as int;
    proof {
        if let Some(t) = expect {
            lemma_string_bounds(t, cs@, start, 0);
        }
    }
    if !expect_char(cs, pos, '"') {
        proof {
            if let Some(t) = expect {
                assert(false);
            }
        }
        return Option::None;
    }
    let mut out: Vec<char> = Vec::new();
    let ghost mut k: int = 0;
    proof {
        assert(Seq::<char>::empty() =~= match expect {
            Some(t) => t.take(0),
            None => Seq::<char>::empty(),
        });
    }
    loop
        invariant
            start < *pos,
            *pos <= cs@.len(),
            expect matches Some(t) ==> {
                &&& 0 <= k <= t.len()
                &&& out@ == t.take(k)
                &&& *pos == start + 1 + escape_seq(t.take(k)).len()
            },
        decreases cs@.len() - *pos,
    {
        proof {
            if let Some(t) = expect {
                lemma_string_bounds(t, cs@, start, k);
                if k < t.len() {
                    lemma_escape_char_shape(t[k]);
                    lemma_string_char_at(t, cs@, start, k, 0);
                } else {
                    assert(t.take(k) =~= t);
                }
            }
        }
        if *pos >= cs.len() {
            proof {
                if let Some(t) = expect {
                    assert(false);
                }
            }
            return Option::None;
        }
        let c = cs[*pos];
        proof {
            if let Some(t) = expect {
                if k == t.len() {
                    assert(c == '"');
                } else {
                    assert(c == escape_char(t[k])[0]);
                }
            }
        }
        *pos = *pos + 1;
        if c == '"' {
            proof {
                if let Some(t) = expect {
                    if k < t.len() {
                        assert(false);
                    }
                    assert(out@ =~= t);
                }
            }
            return Option::Some(strutil::chars_string(&out));
        } else if c == '\\' {
            proof {
                if let Some(t) = expect {
                    assert(k < t.len());
                    assert(t[k] == '"' || t[k] == '\\' || (t[k] as nat) < 32);
                    lemma_string_char_at(t, cs@, start, k, 1);
                }
            }
            if *pos >= cs.len() {
                proof {
                    if let Some(t) = expect {
                        assert(false);
                    }
                }
                return Option::None;
            }
            let e = cs[*pos];
            proof {
                if let Some(t) = expect {
                    assert(e == escape_char(t[k])[1]);
                    lemma_escape_inv(t[k], e);
                }
            }
            *pos = *pos + 1;
            if e == '"' {
                out.push('"');
                proof {
                    if let Some(t) = expect {
                        assert(escape_char(t[k]) =~= seq!['\\', '"']);
                        lemma_escape_seq_take_snoc(t, k);
                        assert(out@ =~= t.take(k + 1));
                        k = k + 1;
                    }
                }
            } else if e == '\\' {
                out.push('\\');
                proof {
                    if let Some(t) = expect {
                        assert(escape_char(t[k]) =~= seq!['\\', '\\']);
                        lemma_escape_seq_take_snoc(t, k);
                        assert(out@ =~= t.take(k + 1));
                        k = k + 1;
                    }
                }
            } else if e == 'b' {
                out.push('\u{8}');
                proof {
                    if let Some(t) = expect {
                        assert(escape_char(t[k]) =~= seq!['\\', 'b']);
                        lemma_escape_seq_take_snoc(t, k);
                        assert(out@ =~= t.take(k + 1));
                        k = k + 1;
                    }
                }
            } else if e == 't' {
                out.push('\t');
                proof {
                    if let Some(t) = expect {
                        assert(escape_char(t[k]) =~= seq!['\\', 't']);
                        lemma_escape_seq_take_snoc(t, k);
                        assert(out@ =~= t.take(k + 1));
                        k = k + 1;
                    }
                }
            } else if e == 'n' {
                out.push('\n');
                proof {
                    if let Some(t) = expect {
                        assert(escape_char(t[k]) =~= seq!['\\', 'n']);
                        lemma_escape_seq_take_snoc(t, k);
                        assert(out@ =~= t.take(k + 1));
                        k = k + 1;
                    }
                }
            } else if e == 'f' {
                out.push('\u{c}');
                proof {
                    if let Some(t) = expect {
                        assert(escape_char(t[k]) =~= seq!['\\', 'f']);
                        lemma_escape_seq_take_snoc(t, k);
                        assert(out@ =~= t.take(k + 1));
                        k = k + 1;
                    }
                }
            } else if e == 'r' {
                out.push('\r');
                proof {
                    if let Some(t) = expect {
                        assert(escape_char(t[k]) =~= seq!['\\', 'r']);
                        lemma_escape_seq_take_snoc(t, k);
                        assert(out@ =~= t.take(k + 1));
                        k = k + 1;
                    }
                }
            } else if e == 'u' {
                proof {
                    if let Some(t) = expect {
                        lemma_string_char_at(t, cs@, start, k, 2);
                        lemma_string_char_at(t, cs@, start, k, 3);
                        lemma_string_char_at(t, cs@, start, k, 4);
                        lemma_string_char_at(t, cs@, start, k, 5);
                    }
                }
                if !expect_char(cs, pos, '0') {
                    proof {
                        if let Some(t) = expect {
                            assert(false);
                        }
                    }
                    return Option::None;
                }
                if !expect_char(cs, pos, '0') {
                    proof {
                        if let Some(t) = expect {
                            assert(false);
                        }
                    }
                    return Option::None;
                }
                let h1 = match read_hex_digit(cs, pos) {
                    Option::Some(h) => h,
                    Option::None => {
                        proof {
                            if let Some(t) = expect {
                                assert(false);
                            }
                        }
                        return Option::None;
                    },
                };
                let h2 = match read_hex_digit(cs, pos) {
                    Option::Some(h) => h,
                    Option::None => {
                        proof {
                            if let Some(t) = expect {
                                assert(false);
                            }
                        }
                        return Option::None;
                    },
                };
                proof {
                    if let Some(t) = expect {
                        assert(h1 as nat == (t[k] as nat) / 16);
                        assert(h2 as nat == (t[k] as nat) % 16);
                    }
                }
                let code = h1 * 16 + h2;
                if code < 32 {
                    let lc = low_char(code);
                    out.push(lc);
                    proof {
                        if let Some(t) = expect {
                            assert(code as nat == t[k] as nat);
                            assert(lc as nat == code as nat);
                            assert(lc as nat == t[k] as nat);
                            lemma_char_eq(lc, t[k]);
                            lemma_escape_seq_take_snoc(t, k);
                            assert(out@ =~= t.take(k + 1));
                            k = k + 1;
                        }
                    }
                } else {
                    proof {
                        if let Some(t) = expect {
                            assert(false);
                        }
                    }
                    return Option::None;
                }
            } else {
                proof {
                    if let Some(t) = expect {
                        assert(false);
                    }
                }
                return Option::None;
            }
        } else {
            out.push(c);
            proof {
                if let Some(t) = expect {
                    assert(k < t.len());
                    assert(escape_char(t[k]) =~= seq![t[k]]);
                    assert(c == t[k]);
                    lemma_escape_seq_take_snoc(t, k);
                    assert(out@ =~= t.take(k + 1));
                    k = k + 1;
                }
            }
        }
    }
}

proof fn lemma_escape_inv(cc: char, e: char)
    requires
        cc == '"' || cc == '\\' || (cc as nat) < 32,
        escape_char(cc).len() >= 2,
        escape_char(cc)[1] == e,
    ensures
        e == '"' ==> cc == '"',
        e == '\\' ==> cc == '\\',
        e == 'b' ==> cc == '\u{8}',
        e == 't' ==> cc == '\t',
        e == 'n' ==> cc == '\n',
        e == 'f' ==> cc == '\u{c}',
        e == 'r' ==> cc == '\r',
        e == 'u' ==> ((cc as nat) < 32 && escape_char(cc).len() == 6 && escape_char(cc)[2] == '0'
            && escape_char(cc)[3] == '0' && escape_char(cc)[4] == hex_digit((cc as nat) / 16)
            && escape_char(cc)[5] == hex_digit((cc as nat) % 16)),
        e == '"' || e == '\\' || e == 'b' || e == 't' || e == 'n' || e == 'f' || e == 'r' || e
            == 'u',
        escape_char(cc).len() == if e == 'u' {
            6int
        } else {
            2int
        },
{
}

fn read_hex_digit(cs: &Vec<char>, pos: &mut usize) -> (r: Option<u32>)
    ensures
        *old(pos) <= *final(pos),
        *final(pos) <= *old(pos) + 1,
        *old(pos) <= cs@.len() ==> *final(pos) <= cs@.len(),
        r matches Some(d) ==> d < 16 && *final(pos) == *old(pos) + 1,
        *old(pos) < cs@.len() ==> forall|d0: nat|
            d0 < 16 && cs@[*old(pos) as int] == hex_digit(d0) ==> (r matches Some(d) && d as nat
                == d0),
{
    if *pos >= cs.len() {
        return Option::None;
    }
    let c = cs[*pos];
    let d: u32 = if c == '0' {
        0
    } else if c == '1' {
        1
    } else if c == '2' {
        2
    } else if c == '3' {
        3
    } else if c == '4' {
        4
    } else if c == '5' {
        5
    } else if c == '6' {
        6
    } else if c == '7' {
        7
    } else if c == '8' {
        8
    } else if c == '9' {
        9
    } else if c == 'a' {
        10
    } else if c == 'b' {
        11
    } else if c == 'c' {
        12
    } else if c == 'd' {
        13
    } else if c == 'e' {
        14
    } else if c == 'f' {
        15
    } else {
        return Option::None;
    };
    *pos = *pos + 1;
    Option::Some(d)
}

proof fn lemma_front_first(l: Seq<(Seq<char>, Seq<char>)>)
    requires
        l.len() > 0,
    ensures
        items_json_front(l).len() >= 1,
        items_json_front(l)[0] == '{',
{
    lemma_object_layout(l[0].0, l[0].1);
    assert(secret_object(l[0].0, l[0].1)[0] == '{');
    if l.len() == 1 {
    } else {
        assert(items_json_front(l)[0] == secret_object(l[0].0, l[0].1)[0]);
    }
}

#[verifier::loop_isolation(false)]
#[verifier::rlimit(100)]
#[verifier::spinoff_prover]
fn raw_parse(
    s: &str,
    Ghost(expect): Ghost<Option<Seq<(Seq<char>, Seq<char>)>>>,
) -> (r: Option<Vec<Secret>>)
    requires
        expect matches Some(pl) ==> s@ == secrets_json(pl),
    ensures
        expect matches Some(pl) ==> (r matches Some(l) && pairs_of(l@) == pl),
{
    let cs = strutil::str_chars(s);
    let mut pos: usize = 0;
    let mut out: Vec<Secret> = Vec::new();
    proof {
        if let Some(pl) = expect {
            lemma_items_json_eq_front(pl);
            assert(cs@.skip(0) =~= seq!['['] + (items_json_front(pl) + seq![']']));
            lemma_skip_concat(cs@, 0, seq!['['], items_json_front(pl) + seq![']']);
        }
    }
    if !expect_char(&cs, &mut pos, '[') {
        proof {
            if let Some(pl) = expect {
                assert(false);
            }
        }
        return Option::None;
    }
    proof {
        if let Some(pl) = expect {
            if pl.len() > 0 {
                lemma_front_first(pl);
                assert(cs@.skip(1)[0] == cs@[1]);
                assert(cs@[1] == '{');
            } else {
                assert(items_json_front(pl) =~= Seq::<char>::empty());
                assert(cs@.skip(1)[0] == cs@[1]);
                assert(cs@[1] == ']');
            }
        }
    }
    if expect_char(&cs, &mut pos, ']') {
        if pos == cs.len() {
            proof {
                if let Some(pl) = expect {
                    assert(pl.len() == 0);
                    assert(pairs_of(out@) =~= pl);
                }
            }
            return Option::Some(out);
        }
        proof {
            if let Some(pl) = expect {
                assert(pl.len() == 0);
                assert(items_json_front(pl) =~= Seq::<char>::empty());
                assert(cs@.len() == 2);
                assert(false);
            }
        }
        return Option::None;
    }
    proof {
        if let Some(pl) = expect {
            assert(pl.len() > 0);
            assert(pl.skip(0) =~= pl);
            assert(cs@.skip(pos as int) == items_json_front(pl.skip(0)) + seq![']']);
        }
    }
    let ghost mut j: int = 0;
    loop
        invariant
            0 < pos,
            pos <= cs@.len(),
            expect matches Some(pl) ==> {
                &&& 0 <= j < pl.len()
                &&& out@.len() == j
                &&& (forall|i: int|
                    0 <= i < j ==> ((#[trigger] out@[i]).key@, out@[i].value@) == pl[i])
                &&& cs@.skip(pos as int) == items_json_front(pl.skip(j)) + seq![']']
            },
        decreases cs@.len() - pos,
    {
        let ghost p0 = pos as int;
        proof {
            if let Some(pl) = expect {
                let tail = pl.skip(j);
                assert(tail[0] == pl[j]);
                let okey = seq!['{', '"', 'k', 'e', 'y', '"', ':'];
                let oval = seq![',', '"', 'v', 'a', 'l', 'u', 'e', '"', ':'];
                let jsk = json_string(pl[j].0);
                let jsv = json_string(pl[j].1);
                let rest: Seq<char> = if tail.len() == 1 {
                    Seq::<char>::empty()
                } else {
                    seq![','] + items_json_front(tail.drop_first())
                };
                if tail.len() == 1 {
                    assert(items_json_front(tail) =~= secret_object(pl[j].0, pl[j].1) + rest);
                } else {
                    assert(items_json_front(tail) == secret_object(tail[0].0, tail[0].1)
                        + seq![','] + items_json_front(tail.drop_first()));
                    assert(items_json_front(tail) =~= secret_object(pl[j].0, pl[j].1) + rest);
                }
                lemma_object_layout(pl[j].0, pl[j].1);
                let b1 = jsk + (oval + (jsv + (seq!['}'] + (rest + seq![']']))));
                assert(cs@.skip(p0) =~= okey + b1);
                lemma_skip_concat(cs@, p0, okey, b1);
            }
        }
        if !expect_char(&cs, &mut pos, '{') {
            proof {
                if let Some(pl) = expect {
                    assert(false);
                }
            }
            return Option::None;
        }
        if !expect_char(&cs, &mut pos, '"') {
            proof {
                if let Some(pl) = expect {
                    assert(false);
                }
            }
            return Option::None;
        }
        if !expect_char(&cs, &mut pos, 'k') {
            proof {
                if let Some(pl) = expect {
                    assert(false);
                }
            }
            return Option::None;
        }
        if !expect_char(&cs, &mut pos, 'e') {
            proof {
                if let Some(pl) = expect {
                    assert(false);
                }
            }
            return Option::None;
        }
        if !expect_char(&cs, &mut pos, 'y') {
            proof {
                if let Some(pl) = expect {
                    assert(false);
                }
            }
            return Option::None;
        }
        if !expect_char(&cs, &mut pos, '"') {
            proof {
                if let Some(pl) = expect {
                    assert(false);
                }
            }
            return Option::None;
        }
        if !expect_char(&cs, &mut pos, ':') {
            proof {
                if let Some(pl) = expect {
                    assert(false);
                }
            }
            return Option::None;
        }
        let ghost p1 = pos as int;
        proof {
            if let Some(pl) = expect {
                let tail = pl.skip(j);
                let oval = seq![',', '"', 'v', 'a', 'l', 'u', 'e', '"', ':'];
                let jsk = json_string(pl[j].0);
                let jsv = json_string(pl[j].1);
                let rest: Seq<char> = if tail.len() == 1 {
                    Seq::<char>::empty()
                } else {
                    seq![','] + items_json_front(tail.drop_first())
                };
                let b2 = oval + (jsv + (seq!['}'] + (rest + seq![']'])));
                assert(cs@.skip(p1) =~= jsk + b2);
                lemma_skip_concat(cs@, p1, jsk, b2);
            }
        }
        let ghost ek: Option<Seq<char>> = match expect {
            Option::Some(pl) => Option::Some(pl[j].0),
            Option::None => Option::None,
        };
        let key = match parse_json_string(&cs, &mut pos, Ghost(ek)) {
            Option::Some(k) => k,
            Option::None => {
                proof {
                    if let Some(pl) = expect {
                        assert(false);
                    }
                }
                return Option::None;
            },
        };
        let ghost p2 = pos as int;
        proof {
            if let Some(pl) = expect {
                let tail = pl.skip(j);
                let oval = seq![',', '"', 'v', 'a', 'l', 'u', 'e', '"', ':'];
                let jsv = json_string(pl[j].1);
                let rest: Seq<char> = if tail.len() == 1 {
                    Seq::<char>::empty()
                } else {
                    seq![','] + items_json_front(tail.drop_first())
                };
                let b3 = jsv + (seq!['}'] + (rest + seq![']']));
                assert(cs@.skip(p2) =~= oval + b3);
                lemma_skip_concat(cs@, p2, oval, b3);
            }
        }
        if !expect_char(&cs, &mut pos, ',') {
            proof {
                if let Some(pl) = expect {
                    assert(false);
                }
            }
            return Option::None;
        }
        if !expect_char(&cs, &mut pos, '"') {
            proof {
                if let Some(pl) = expect {
                    assert(false);
                }
            }
            return Option::None;
        }
        if !expect_char(&cs, &mut pos, 'v') {
            proof {
                if let Some(pl) = expect {
                    assert(false);
                }
            }
            return Option::None;
        }
        if !expect_char(&cs, &mut pos, 'a') {
            proof {
                if let Some(pl) = expect {
                    assert(false);
                }
            }
            return Option::None;
        }
        if !expect_char(&cs, &mut pos, 'l') {
            proof {
                if let Some(pl) = expect {
                    assert(false);
                }
            }
            return Option::None;
        }
        if !expect_char(&cs, &mut pos, 'u') {
            proof {
                if let Some(pl) = expect {
                    assert(false);
                }
            }
            return Option::None;
        }
        if !expect_char(&cs, &mut pos, 'e') {
            proof {
                if let Some(pl) = expect {
                    assert(false);
                }
            }
            return Option::None;
        }
        if !expect_char(&cs, &mut pos, '"') {
            proof {
                if let Some(pl) = expect {
                    assert(false);
                }
            }
            return Option::None;
        }
        if !expect_char(&cs, &mut pos, ':') {
            proof {
                if let Some(pl) = expect {
                    assert(false);
                }
            }
            return Option::None;
        }
        let ghost p3 = pos as int;
        proof {
            if let Some(pl) = expect {
                let tail = pl.skip(j);
                let jsv = json_string(pl[j].1);
                let rest: Seq<char> = if tail.len() == 1 {
                    Seq::<char>::empty()
                } else {
                    seq![','] + items_json_front(tail.drop_first())
                };
                let b4 = seq!['}'] + (rest + seq![']']);
                assert(cs@.skip(p3) =~= jsv + b4);
                lemma_skip_concat(cs@, p3, jsv, b4);
            }
        }
        let ghost ev: Option<Seq<char>> = match expect {
            Option::Some(pl) => Option::Some(pl[j].1),
            Option::None => Option::None,
        };
        let value = match parse_json_string(&cs, &mut pos, Ghost(ev)) {
            Option::Some(v) => v,
            Option::None => {
                proof {
                    if let Some(pl) = expect {
                        assert(false);
                    }
                }
                return Option::None;
            },
        };
        let ghost p4 = pos as int;
        proof {
            if let Some(pl) = expect {
                let tail = pl.skip(j);
                let rest: Seq<char> = if tail.len() == 1 {
                    Seq::<char>::empty()
                } else {
                    seq![','] + items_json_front(tail.drop_first())
                };
                assert(cs@.skip(p4) =~= seq!['}'] + (rest + seq![']']));
                lemma_skip_concat(cs@, p4, seq!['}'], rest + seq![']']);
                assert(cs@[p4 + 0] == seq!['}'][0]);
                assert(cs@[p4] == '}');
                assert(p4 < cs@.len());
            }
        }
        if !expect_char(&cs, &mut pos, '}') {
            proof {
                if let Some(pl) = expect {
                    assert(false);
                }
            }
            return Option::None;
        }
        out.push(Secret { key, value });
        let ghost p5 = pos as int;
        if expect_char(&cs, &mut pos, ',') {
            proof {
                if let Some(pl) = expect {
                    let tail = pl.skip(j);
                    let rest: Seq<char> = if tail.len() == 1 {
                        Seq::<char>::empty()
                    } else {
                        seq![','] + items_json_front(tail.drop_first())
                    };
                    assert(cs@.skip(p5) == rest + seq![']']);
                    if tail.len() == 1 {
                        assert(cs@.skip(p5)[0] == cs@[p5]);
                        assert(cs@[p5] == ']');
                        assert(false);
                    }
                    assert(cs@.skip(p5) =~= seq![','] + (items_json_front(tail.drop_first())
                        + seq![']']));
                    lemma_skip_concat(
                        cs@,
                        p5,
                        seq![','],
                        items_json_front(tail.drop_first()) + seq![']'],
                    );
                    assert(cs@[p5 + 0] == seq![','][0]);
                    assert(tail.drop_first() =~= pl.skip(j + 1));
                    assert forall|i: int|
                        0 <= i < j + 1 implies ((#[trigger] out@[i]).key@, out@[i].value@)
                        == pl[i] by {}
                    j = j + 1;
                }
            }
            continue ;
        }
        proof {
            if let Some(pl) = expect {
                let tail = pl.skip(j);
                if tail.len() > 1 {
                    let rest = seq![','] + items_json_front(tail.drop_first());
                    assert(cs@.skip(p5) == rest + seq![']']);
                    assert(cs@.skip(p5)[0] == cs@[p5]);
                    assert(cs@[p5] == ',');
                    assert(false);
                }
                assert(cs@.skip(p5) =~= seq![']'] + Seq::<char>::empty());
                lemma_skip_concat(cs@, p5, seq![']'], Seq::<char>::empty());
                assert(cs@[p5 + 0] == seq![']'][0]);
                assert(cs@[p5] == ']');
            }
        }
        if !expect_char(&cs, &mut pos, ']') {
            proof {
                if let Some(pl) = expect {
                    assert(false);
                }
            }
            return Option::None;
        }
        if pos == cs.len() {
            proof {
                if let Some(pl) = expect {
                    assert(pl.len() == j + 1);
                    assert(pairs_of(out@) =~= pl);
                }
            }
            return Option::Some(out);
        }
        proof {
            if let Some(pl) = expect {
                assert(false);
            }
        }
        return Option::None;
    }
}

/// Parse a secrets file.  The text is accepted exactly when it is the
/// canonical encoding of some list of secrets: whatever comes back
/// re-encodes to the very input, and every canonical encoding is
/// accepted, so reading a file the encoder wrote always succeeds.
pub fn parse_secrets(s: &str) -> (r: Option<Vec<Secret>>)
    ensures
        r matches Some(l) ==> s@ == secrets_json(pairs_of(l@)),
        forall|pl: Seq<(Seq<char>, Seq<char>)>| s@ == secrets_json(pl) ==> r is Some,
{
    let ghost expect: Option<Seq<(Seq<char>, Seq<char>)>> = if exists|pl: Seq<(Seq<char>, Seq<char>)>|
        s@ == secrets_json(pl) {
        Option::Some(choose|pl: Seq<(Seq<char>, Seq<char>)>| s@ == secrets_json(pl))
    } else {
        Option::None
    };
    let cand = match raw_parse(s, Ghost(expect)) {
        Option::Some(c) => c,
        Option::None => {
            proof {
                assert forall|pl: Seq<(Seq<char>, Seq<char>)>|
                    s@ == secrets_json(pl) implies false by {}
            }
            return Option::None;
        },
    };
    let enc = encode_secrets(&cand);
    if strutil::str_eq(enc.as_str(), s) {
        Option::Some(cand)
    } else {
        proof {
            assert forall|pl: Seq<(Seq<char>, Seq<char>)>|
                s@ == secrets_json(pl) implies false by {}
        }
        Option::None
    }
}

} // verus!
