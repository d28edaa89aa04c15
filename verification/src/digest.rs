use vstd::prelude::*;

verus! {

/// Offset basis of the 64-bit FNV-1a hash.
pub const FNV_OFFSET: u64 = 0xcbf29ce484222325;

/// Prime of the 64-bit FNV-1a hash.
pub const FNV_PRIME: u64 = 0x100000001b3;

/// One FNV-1a round: fold a byte into the running hash.
pub open spec fn fnv1a_step(h: u64, b: u8) -> u64 {
    (h ^ (b as u64)).wrapping_mul(FNV_PRIME)
}

/// 64-bit FNV-1a hash of a byte sequence.
pub open spec fn fnv1a(s: Seq<u8>) -> u64
    decreases s.len(),
{
    if s.len() == 0 {
        FNV_OFFSET
    } else {
        fnv1a_step(fnv1a(s.drop_last()), s.last())
    }
}

/// Lower-case hexadecimal digit for a value below sixteen.
pub open spec fn hex_digit(n: u8) -> char {
    if n == 0 {
        '0'
    } else if n == 1 {
        '1'
    } else if n == 2 {
        '2'
    } else if n == 3 {
        '3'
    } else if n == 4 {
        '4'
    } else if n == 5 {
        '5'
    } else if n == 6 {
        '6'
    } else if n == 7 {
        '7'
    } else if n == 8 {
        '8'
    } else if n == 9 {
        '9'
    } else if n == 10 {
        'a'
    } else if n == 11 {
        'b'
    } else if n == 12 {
        'c'
    } else if n == 13 {
        'd'
    } else if n == 14 {
        'e'
    } else {
        'f'
    }
}

/// Hex digit `i` of `h`, counting from the most significant nibble.
pub open spec fn nibble_of(h: u64, i: int) -> u8
    recommends
        0 <= i < 16,
{
    ((h >> ((60 - 4 * i) as u64)) & 0xf) as u8
}

/// Sixteen-character lower-case hexadecimal rendering of a 64-bit value,
/// most significant nibble first.
pub open spec fn hex_of_u64(h: u64) -> Seq<char> {
    Seq::new(16, |i: int| hex_digit(nibble_of(h, i)))
}

/// The content digest this store addresses by: the FNV-1a hash of the bytes,
/// rendered as sixteen hex characters.
pub open spec fn digest_of(s: Seq<u8>) -> Seq<char> {
    hex_of_u64(fnv1a(s))
}

proof fn lemma_fnv1a_take_succ(s: Seq<u8>, i: int)
    requires
        0 <= i < s.len(),
    ensures
        fnv1a(s.take(i + 1)) == fnv1a_step(fnv1a(s.take(i)), s[i]),
{
    assert(s.take(i + 1).drop_last() =~= s.take(i));
    assert(s.take(i + 1).last() == s[i]);
}

/// The single-character string for a hex digit.
fn hex_char_str(n: u8) -> (r: &'static str)
    requires
        n < 16,
    ensures
        r@ == seq![hex_digit(n)],
{
    let r: &'static str = match n {
        0 => "0",
        1 => "1",
        2 => "2",
        3 => "3",
        4 => "4",
        5 => "5",
        6 => "6",
        7 => "7",
        8 => "8",
        9 => "9",
        10 => "a",
        11 => "b",
        12 => "c",
        13 => "d",
        14 => "e",
        _ => "f",
    };
    proof {
        reveal_strlit("0");
        reveal_strlit("1");
        reveal_strlit("2");
        reveal_strlit("3");
        reveal_strlit("4");
        reveal_strlit("5");
        reveal_strlit("6");
        reveal_strlit("7");
        reveal_strlit("8");
        reveal_strlit("9");
        reveal_strlit("a");
        reveal_strlit("b");
        reveal_strlit("c");
        reveal_strlit("d");
        reveal_strlit("e");
        reveal_strlit("f");
        assert(r@ =~= seq![hex_digit(n)]);
    }
    r
}

/// Renders a 64-bit value as sixteen lower-case hex characters.
fn hex_of(h: u64) -> (s: String)
    ensures
        s@ == hex_of_u64(h),
{
    let mut s = String::new();
    let mut i: usize = 0;
    while i < 16
        invariant
            i <= 16,
            s@ =~= hex_of_u64(h).take(i as int),
        decreases 16 - i,
    {
        let shift: u64 = 60 - 4 * (i as u64);
        let nib: u64 = (h >> shift) & 0xf;
        assert((h >> shift) & 0xf < 16) by (bit_vector);
        let d: u8 = nib as u8;
        assert(d == nibble_of(h, i as int));
        s.append(hex_char_str(d));
        assert(s@ =~= hex_of_u64(h).take(i as int + 1));
        i += 1;
    }
    assert(s@ =~= hex_of_u64(h));
    s
}

/// Computes the content digest of a byte vector.
pub fn compute_digest(bytes: &Vec<u8>) -> (d: String)
    ensures
        d@ == digest_of(bytes@),
{
    let mut h: u64 = FNV_OFFSET;
    let mut i: usize = 0;
    while i < bytes.len()
        invariant
            i <= bytes@.len(),
            h == fnv1a(bytes@.take(i as int)),
        decreases bytes@.len() - i,
    {
        let b = bytes[i];
        proof {
            lemma_fnv1a_take_succ(bytes@, i as int);
        }
        h = (h ^ (b as u64)).wrapping_mul(FNV_PRIME);
        i += 1;
    }
    assert(bytes@.take(bytes@.len() as int) =~= bytes@);
    hex_of(h)
}

} // verus!
