use vstd::prelude::*;
use crate::radix::{bin_parses, bin_val, dec_parses, dec_val, low_u8};
use crate::tokens::split_ws;
use crate::enum_table::{spec_table_of, symbols_end, table_map};

verus! {

/// The 8-bit code that the code token at offset `i` denotes.
pub open spec fn code_key(codes: Seq<Seq<char>>, i: int) -> u8 {
    low_u8(bin_val(codes[i])) as u8
}

proof fn lemma_table_map_at(names: Seq<Seq<char>>, codes: Seq<Seq<char>>, i: int)
    requires
        names.len() == codes.len(),
        0 <= i < codes.len(),
        forall|l: int| 0 <= l < codes.len() ==> bin_parses(#[trigger] codes[l]),
        forall|l: int, m: int|
            0 <= l < m < codes.len() ==> code_key(codes, l) != code_key(codes, m),
    ensures
        table_map(names, codes).contains_key(code_key(codes, i)),
        table_map(names, codes)[code_key(codes, i)] == names[i],
    decreases codes.len(),
{
    let n = codes.len() as int;
    assert(names.take(n - 1).len() == codes.take(n - 1).len());
    if i == n - 1 {
    } else {
        assert(forall|l: int|
            0 <= l < n - 1 ==> #[trigger] codes.take(n - 1)[l] == codes[l]);
        assert forall|l: int, m: int|
            0 <= l < m < n - 1 implies #[trigger] code_key(codes.take(n - 1), l) != #[trigger]
        code_key(codes.take(n - 1), m) by {
            assert(codes.take(n - 1)[l] == codes[l]);
            assert(codes.take(n - 1)[m] == codes[m]);
            assert(code_key(codes, l) != code_key(codes, m));
        }
        lemma_table_map_at(names.take(n - 1), codes.take(n - 1), i);
        assert(codes.take(n - 1)[i] == codes[i]);
        assert(names.take(n - 1)[i] == names[i]);
        assert(code_key(codes, n - 1) != code_key(codes, i));
    }
}

/// Law: a valid attribute string of the form
/// `<name> <n> <sym_1>..<sym_n> <code_1>..<code_n>`, with each code a
/// parsable radix-2 string and the codes pairwise distinct, yields a
/// table named by the first token that maps `code_i` to `sym_i` for
/// every `i`.
pub proof fn lemma_valid_encoding_maps_pairs(s: Seq<char>, n: nat)
    requires
        n >= 1,
        split_ws(s).len() == 2 + 2 * n,
        dec_parses(split_ws(s)[1]),
        dec_val(split_ws(s)[1]) == n,
        forall|i: int| 0 <= i < n ==> bin_parses(#[trigger] split_ws(s)[2 + n + i]),
        forall|i: int, j: int|
            0 <= i < j < n ==> low_u8(bin_val(#[trigger] split_ws(s)[2 + n + i])) != low_u8(
                bin_val(#[trigger] split_ws(s)[2 + n + j]),
            ),
    ensures
        spec_table_of(s) is Some,
        spec_table_of(s)->0.name == split_ws(s)[0],
        spec_table_of(s)->0.arity == n,
        forall|i: int|
            0 <= i < n ==> {
                let code = low_u8(bin_val(#[trigger] split_ws(s)[2 + n + i])) as u8;
                spec_table_of(s)->0.codes.contains_key(code) && spec_table_of(s)->0.codes[code]
                    == split_ws(s)[2 + i]
            },
{
    let toks = split_ws(s);
    assert(symbols_end(toks, n) == 2 + n);
    let names = toks.subrange(2, 2 + n as int);
    let codes = toks.subrange(2 + n as int, toks.len() as int);
    assert(names.len() == n);
    assert(codes.len() == n);
    assert(forall|l: int| 0 <= l < n ==> #[trigger] codes[l] == toks[2 + n + l]);
    assert(forall|l: int| 0 <= l < n ==> #[trigger] names[l] == toks[2 + l]);
    assert forall|i: int| 0 <= i < n implies {
        let code = low_u8(bin_val(#[trigger] toks[2 + n + i])) as u8;
        spec_table_of(s)->0.codes.contains_key(code) && spec_table_of(s)->0.codes[code] == toks[2
            + i]
    } by {
        assert forall|l: int, m: int|
            0 <= l < m < codes.len() implies #[trigger] code_key(codes, l) != #[trigger] code_key(
            codes,
            m,
        ) by {
            assert(codes[l] == toks[2 + n + l]);
            assert(codes[m] == toks[2 + n + m]);
        }
        lemma_table_map_at(names, codes, i);
        assert(code_key(codes, i) == low_u8(bin_val(toks[2 + n + i])) as u8);
    }
}

/// Law: an attribute with at least four tokens whose arity token does not
/// parse still yields a table — with no symbol slots and an empty code
/// map — rather than a builder failure.
pub proof fn lemma_unparsable_arity_yields_empty(s: Seq<char>)
    requires
        split_ws(s).len() >= 4,
        !dec_parses(split_ws(s)[1]),
    ensures
        spec_table_of(s) is Some,
        spec_table_of(s)->0.arity == 0,
        spec_table_of(s)->0.codes == Map::<u8, Seq<char>>::empty(),
{
    let toks = split_ws(s);
    assert(symbols_end(toks, 0) == 2);
    let names = toks.subrange(2, 2);
    let codes = toks.subrange(2, toks.len() as int);
    assert(names.len() == 0);
    assert(table_map(names, codes) == Map::<u8, Seq<char>>::empty());
}

} // verus!
