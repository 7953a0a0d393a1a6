use vstd::prelude::*;

verus! {

/// Marks a byte that is no symbol of the alphabet in a reverse lookup table.
pub const INVALID: u8 = 0xff;

/// The symbols of the text form, each at the index of the value it stands for:
/// `0123456789abcdefghjkmnpqrstvwxyz`, the lower-case letters without `i`, `l`, `o` and `u`.
pub const CHARS: [u8; 32] = [
    48, 49, 50, 51, 52, 53, 54, 55,
    56, 57, 97, 98, 99, 100, 101, 102,
    103, 104, 106, 107, 109, 110, 112, 113,
    114, 115, 116, 118, 119, 120, 121, 122,
];

/// The reverse lookup table of `CHARS`: at the byte value of each symbol its index,
/// `INVALID` everywhere else.
pub const VALUES: [u8; 256] = [
    0xff, 0xff, 0xff, 0xff, 0xff, 0xff, 0xff, 0xff, 0xff, 0xff, 0xff, 0xff, 0xff, 0xff, 0xff, 0xff,
    0xff, 0xff, 0xff, 0xff, 0xff, 0xff, 0xff, 0xff, 0xff, 0xff, 0xff, 0xff, 0xff, 0xff, 0xff, 0xff,
    0xff, 0xff, 0xff, 0xff, 0xff, 0xff, 0xff, 0xff, 0xff, 0xff, 0xff, 0xff, 0xff, 0xff, 0xff, 0xff,
       0,    1,    2,    3,    4,    5,    6,    7,    8,    9, 0xff, 0xff, 0xff, 0xff, 0xff, 0xff,
    0xff, 0xff, 0xff, 0xff, 0xff, 0xff, 0xff, 0xff, 0xff, 0xff, 0xff, 0xff, 0xff, 0xff, 0xff, 0xff,
    0xff, 0xff, 0xff, 0xff, 0xff, 0xff, 0xff, 0xff, 0xff, 0xff, 0xff, 0xff, 0xff, 0xff, 0xff, 0xff,
    0xff,   10,   11,   12,   13,   14,   15,   16,   17, 0xff,   18,   19, 0xff,   20,   21, 0xff,
      22,   23,   24,   25,   26, 0xff,   27,   28,   29,   30,   31, 0xff, 0xff, 0xff, 0xff, 0xff,
    0xff, 0xff, 0xff, 0xff, 0xff, 0xff, 0xff, 0xff, 0xff, 0xff, 0xff, 0xff, 0xff, 0xff, 0xff, 0xff,
    0xff, 0xff, 0xff, 0xff, 0xff, 0xff, 0xff, 0xff, 0xff, 0xff, 0xff, 0xff, 0xff, 0xff, 0xff, 0xff,
    0xff, 0xff, 0xff, 0xff, 0xff, 0xff, 0xff, 0xff, 0xff, 0xff, 0xff, 0xff, 0xff, 0xff, 0xff, 0xff,
    0xff, 0xff, 0xff, 0xff, 0xff, 0xff, 0xff, 0xff, 0xff, 0xff, 0xff, 0xff, 0xff, 0xff, 0xff, 0xff,
    0xff, 0xff, 0xff, 0xff, 0xff, 0xff, 0xff, 0xff, 0xff, 0xff, 0xff, 0xff, 0xff, 0xff, 0xff, 0xff,
    0xff, 0xff, 0xff, 0xff, 0xff, 0xff, 0xff, 0xff, 0xff, 0xff, 0xff, 0xff, 0xff, 0xff, 0xff, 0xff,
    0xff, 0xff, 0xff, 0xff, 0xff, 0xff, 0xff, 0xff, 0xff, 0xff, 0xff, 0xff, 0xff, 0xff, 0xff, 0xff,
    0xff, 0xff, 0xff, 0xff, 0xff, 0xff, 0xff, 0xff, 0xff, 0xff, 0xff, 0xff, 0xff, 0xff, 0xff, 0xff,
];

/// Whether `c` occurs in `alphabet`.
pub open spec fn is_symbol_of(alphabet: Seq<u8>, c: u8) -> bool {
    exists|v: nat| v < alphabet.len() && alphabet[v as int] == c
}

/// An index at which `c` occurs in `alphabet`; the only one where no symbol occurs twice.
pub open spec fn value_in(alphabet: Seq<u8>, c: u8) -> nat {
    choose|v: nat| v < alphabet.len() && alphabet[v as int] == c
}

/// Whether no symbol occurs twice in `alphabet`.
pub open spec fn distinct(alphabet: Seq<u8>) -> bool {
    forall|i: int, j: int| 0 <= i < j < alphabet.len() ==> alphabet[i] != alphabet[j]
}

/// The reverse lookup table of an alphabet: one entry for each byte value, holding the
/// value that the byte stands for, or `INVALID` where the byte is no symbol.
pub open spec fn reverse_table_spec(alphabet: Seq<u8>) -> Seq<u8> {
    Seq::new(
        256,
        |b: int|
            if is_symbol_of(alphabet, b as u8) {
                value_in(alphabet, b as u8) as u8
            } else {
                INVALID
            },
    )
}

/// Whether `c` is a symbol of the alphabet: a digit (48 to 57), or a lower-case letter
/// (97 to 122) other than `i` (105), `l` (108), `o` (111) and `u` (117).
///
/// These are the bytes that occur in `CHARS`: see `lemma_symbols_are_chars`.
pub open spec fn is_symbol(c: u8) -> bool {
    48 <= c <= 57 || (97 <= c <= 122 && c != 105 && c != 108 && c != 111 && c != 117)
}

/// The value from 0 to 31 that the symbol `c` stands for: the number of symbols that come
/// before it, ten digits and the letters below it but for those left out.
///
/// This is the index of `c` in `CHARS`: see `lemma_symbols_are_chars`.
pub open spec fn symbol_value(c: u8) -> nat {
    if 48 <= c <= 57 {
        (c - 48) as nat
    } else if 97 <= c <= 122 {
        let left_out: int = if c > 117 {
            4
        } else if c > 111 {
            3
        } else if c > 108 {
            2
        } else if c > 105 {
            1
        } else {
            0
        };
        (c - 87 - left_out) as nat
    } else {
        0
    }
}

/// Builds the reverse lookup table of `alphabet`, or finds that a symbol occurs twice in it.
pub fn reverse_table(alphabet: &[u8; 32]) -> (table: Option<[u8; 256]>)
    ensures
        table is Some <==> distinct(alphabet@),
        table matches Some(t) ==> t@ == reverse_table_spec(alphabet@),
{
    let mut values: [u8; 256] = [0xff; 256];
    let mut i: usize = 0;
    while i < 32
        invariant
            i <= 32,
            distinct(alphabet@.take(i as int)),
            forall|v: int| 0 <= v < i ==> values[alphabet[v] as int] == v,
            forall|b: int|
                0 <= b < 256 && #[trigger] values[b] != INVALID ==> exists|v: int|
                    0 <= v < i && alphabet[v] == b,
        decreases 32 - i,
    {
        let idx = alphabet[i] as usize;
        if values[idx] != INVALID {
            proof {
                let v = choose|v: int| 0 <= v < i && alphabet[v] == idx;
                assert(alphabet@[v] == alphabet@[i as int]);
            }
            return None;
        }
        values[idx] = i as u8;
        i += 1;
        proof {
            assert forall|a: int, b: int| 0 <= a < b < i implies alphabet@.take(i as int)[a]
                != alphabet@.take(i as int)[b] by {
                if b == i - 1 {
                    assert(alphabet@.take(i - 1)[a] == alphabet[a]);
                } else {
                    assert(alphabet@.take(i - 1)[a] != alphabet@.take(i - 1)[b]);
                }
            }
        }
    }
    proof {
        assert(alphabet@.take(32) =~= alphabet@);
        assert forall|b: int| 0 <= b < 256 implies values@[b] == reverse_table_spec(alphabet@)[b] by {
            if is_symbol_of(alphabet@, b as u8) {
                let v = value_in(alphabet@, b as u8) as int;
                assert(values[alphabet[v] as int] == v);
            }
        }
        assert(values@ =~= reverse_table_spec(alphabet@));
    }
    Some(values)
}

/// Each value from 0 to 31 is the value of its own symbol.
pub proof fn lemma_symbol_of_value(v: int)
    requires
        0 <= v < 32,
    ensures
        is_symbol(CHARS@[v]),
        symbol_value(CHARS@[v]) == v,
{
}

/// Each symbol is the symbol of its own value, which is below 32.
pub proof fn lemma_value_of_symbol(c: u8)
    requires
        is_symbol(c),
    ensures
        symbol_value(c) < 32,
        CHARS@[symbol_value(c) as int] == c,
{
}

/// What `VALUES` holds for a byte: the value of a symbol, `INVALID` for any other byte.
pub proof fn lemma_lookup(c: u8)
    ensures
        is_symbol(c) <==> VALUES@[c as int] != INVALID,
        is_symbol(c) ==> VALUES@[c as int] == symbol_value(c),
{
}

/// No symbol occurs twice in `CHARS`.
pub proof fn lemma_chars_distinct()
    ensures
        distinct(CHARS@),
{
    assert forall|i: int, j: int| 0 <= i < j < 32 implies CHARS@[i] != CHARS@[j] by {
        lemma_symbol_of_value(i);
        lemma_symbol_of_value(j);
    }
}

/// The symbols are the bytes that occur in `CHARS`, and the value of each is its index
/// there.
pub proof fn lemma_symbols_are_chars(c: u8)
    ensures
        is_symbol(c) <==> is_symbol_of(CHARS@, c),
        is_symbol(c) ==> symbol_value(c) == value_in(CHARS@, c),
{
    if is_symbol(c) {
        lemma_value_of_symbol(c);
        let v = symbol_value(c);
        assert(v < CHARS@.len() && CHARS@[v as int] == c);
        lemma_symbol_of_value(value_in(CHARS@, c) as int);
    } else if is_symbol_of(CHARS@, c) {
        lemma_symbol_of_value(value_in(CHARS@, c) as int);
    }
}

/// What the reverse lookup table of `CHARS` holds for a byte.
proof fn lemma_reverse_entry(c: u8)
    ensures
        reverse_table_spec(CHARS@)[c as int] == if is_symbol(c) {
            symbol_value(c) as u8
        } else {
            INVALID
        },
{
    lemma_symbols_are_chars(c);
}

/// `VALUES` is the reverse lookup table of `CHARS`.
pub proof fn lemma_values_reverse_chars()
    ensures
        VALUES@ == reverse_table_spec(CHARS@),
{
    let table = reverse_table_spec(CHARS@);
    assert forall|b: int| 0 <= b < 256 implies VALUES@[b] == table[b] by {
        lemma_reverse_entry(b as u8);
        lemma_lookup(b as u8);
    }
    assert(VALUES@ =~= table);
}

/// The hyphen, the four letters left out of the alphabet (`i`, `l`, `o`, `u`) and every
/// upper-case letter are no symbols.
pub proof fn lemma_no_symbol()
    ensures
        !is_symbol(45),
        !is_symbol(105),
        !is_symbol(108),
        !is_symbol(111),
        !is_symbol(117),
        forall|c: u8| 65 <= c <= 90 ==> !is_symbol(c),
{
}

} // verus!
