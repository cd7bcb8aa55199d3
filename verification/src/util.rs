use vstd::prelude::*;

verus! {

/// Bytes in an encoded `u32`.
pub const U32_SIZE: usize = 4;

/// The value of four big-endian bytes.
pub open spec fn be_value(b: Seq<u8>) -> int
    recommends
        b.len() == 4,
{
    b[0] * 0x1000000 + b[1] * 0x10000 + b[2] * 0x100 + b[3]
}

/// The four big-endian bytes of a word.
pub open spec fn be_bytes(w: u32) -> Seq<u8> {
    seq![
        (w / 0x1000000) as u8,
        ((w / 0x10000) % 0x100) as u8,
        ((w / 0x100) % 0x100) as u8,
        (w % 0x100) as u8,
    ]
}

/// Decodes the big-endian word at the front of `buf` and returns it with the rest of `buf`.
pub fn munch_u32_be(buf: &[u8]) -> (res: (u32, &[u8]))
    requires
        buf@.len() >= U32_SIZE,
    ensures
        res.0 as int == be_value(buf@.subrange(0, 4)),
        res.1@ == buf@.subrange(4, buf@.len() as int),
{
    let (word_bytes, tail_bytes) = buf.split_at(U32_SIZE);
    let b0 = word_bytes[0] as u32;
    let b1 = word_bytes[1] as u32;
    let b2 = word_bytes[2] as u32;
    let b3 = word_bytes[3] as u32;
    let decoded_word = b0 * 0x1000000 + b1 * 0x10000 + b2 * 0x100 + b3;
    (decoded_word, tail_bytes)
}

/// Encodes `word` big-endian into the first four bytes of `buf` and hands back the rest of `buf`.
pub fn emit_u32_be(buf: &mut [u8], word: u32) -> (tail: &mut [u8])
    requires
        old(buf)@.len() >= U32_SIZE,
    ensures
        tail@ == old(buf)@.subrange(4, old(buf)@.len() as int),
        final(buf)@ == be_bytes(word) + final(tail)@,
{
    let (word_bytes, tail_bytes) = buf.split_at_mut(U32_SIZE);
    word_bytes[0] = (word / 0x1000000) as u8;
    word_bytes[1] = ((word / 0x10000) % 0x100) as u8;
    word_bytes[2] = ((word / 0x100) % 0x100) as u8;
    word_bytes[3] = (word % 0x100) as u8;
    assert(word_bytes@ =~= be_bytes(word));
    tail_bytes
}

/// Decoding what was encoded gives the word back.
pub proof fn lemma_be_roundtrip(w: u32)
    ensures
        be_value(be_bytes(w)) == w,
        be_bytes(w).len() == 4,
{
}

/// The character of a decimal digit.
pub open spec fn digit_char(d: int) -> char {
    if d == 0 { '0' } else if d == 1 { '1' } else if d == 2 { '2' } else if d == 3 { '3' }
    else if d == 4 { '4' } else if d == 5 { '5' } else if d == 6 { '6' } else if d == 7 { '7' }
    else if d == 8 { '8' } else { '9' }
}

/// The decimal text of `n`, without leading zeros.
pub open spec fn decimal(n: nat) -> Seq<char>
    decreases n,
{
    if n < 10 {
        seq![digit_char(n as int)]
    } else {
        decimal(n / 10).push(digit_char((n % 10) as int))
    }
}

/// The decimal text of `n`, with zeros in front up to `width` characters.
pub open spec fn zero_padded(n: nat, width: nat) -> Seq<char> {
    let t = decimal(n);
    if t.len() < width {
        Seq::new((width - t.len()) as nat, |i: int| '0') + t
    } else {
        t
    }
}

/// The text of one decimal digit.
fn digit_str(d: u64) -> (s: &'static str)
    requires
        d < 10,
    ensures
        s@ == seq![digit_char(d as int)],
{
    proof {
        reveal_strlit("0");
        reveal_strlit("1");
        reveal_strlit("2");
        reveal_strlit("3");
        reveal_strlit("4");
        reveal_strlit("5");
        reveal_strlit("6");
        reveal_strlit("7");
        reveal_strlit("8");
        reveal_strlit("9");
    }
    if d == 0 {
        "0"
    } else if d == 1 {
        "1"
    } else if d == 2 {
        "2"
    } else if d == 3 {
        "3"
    } else if d == 4 {
        "4"
    } else if d == 5 {
        "5"
    } else if d == 6 {
        "6"
    } else if d == 7 {
        "7"
    } else if d == 8 {
        "8"
    } else {
        "9"
    }
}

/// The decimal text of `n`.
pub fn decimal_text(n: u64) -> (s: String)
    ensures
        s@ == decimal(n as nat),
    decreases n,
{
    if n < 10 {
        String::from_str(digit_str(n))
    } else {
        let head = decimal_text(n / 10);
        head.concat(digit_str(n % 10))
    }
}

/// The decimal text of `n`, with zeros in front up to `width` characters.
pub fn zero_padded_text(n: u64, width: usize) -> (s: String)
    ensures
        s@ == zero_padded(n as nat, width as nat),
{
    let t = decimal_text(n);
    let len = t.as_str().unicode_len();
    if len >= width {
        return t;
    }
    let mut pad = String::new();
    let mut i: usize = 0;
    while i < width - len
        invariant
            i <= width - len,
            len < width,
            pad@ == Seq::new(i as nat, |k: int| '0'),
        decreases width - len - i,
    {
        proof {
            reveal_strlit("0");
        }
        pad = pad.concat("0");
        i = i + 1;
        assert(pad@ =~= Seq::new(i as nat, |k: int| '0'));
    }
    pad.concat(t.as_str())
}

} // verus!
