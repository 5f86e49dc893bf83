use vstd::prelude::*;
use vstd::string::StrSliceExecFns;
use crate::tokens::{split_ws, split_whitespace_tokens, views_of};
use crate::radix::{bin_parses, bin_val, dec_parses, dec_val, low_u8, narrow_to_u8,
    parse_dec_usize, parse_radix2};

verus! {

/// The mathematical content of one enum table: its name, its declared
/// arity, and its code-to-symbol mapping.
pub ghost struct SpecTable {
    pub name: Seq<char>,
    pub arity: nat,
    pub codes: Map<u8, Seq<char>>,
}

/// The declared arity of an attribute token list: the base-10 value of
/// the second token, or zero when that token does not parse.
pub open spec fn spec_arity(toks: Seq<Seq<char>>) -> nat {
    if dec_parses(toks[1]) {
        dec_val(toks[1])
    } else {
        0
    }
}

/// Index where the symbol tokens end: `2 + arity`, clamped to the token count.
pub open spec fn symbols_end(toks: Seq<Seq<char>>, arity: nat) -> int {
    if 2 + arity <= toks.len() {
        2 + arity as int
    } else {
        toks.len() as int
    }
}

/// The code-to-symbol map built from symbol tokens and code tokens paired
/// positionally, stopping at the shorter sequence. A code token that does
/// not parse as radix 2 is skipped; parsed codes are narrowed to eight
/// bits; a later pair with the same code wins.
pub open spec fn table_map(names: Seq<Seq<char>>, codes: Seq<Seq<char>>) -> Map<u8, Seq<char>>
    decreases vstd::math::min(names.len() as int, codes.len() as int),
{
    let k = vstd::math::min(names.len() as int, codes.len() as int);
    if k <= 0 {
        Map::empty()
    } else {
        let m = table_map(names.take(k - 1), codes.take(k - 1));
        if bin_parses(codes[k - 1]) {
            m.insert(low_u8(bin_val(codes[k - 1])) as u8, names[k - 1])
        } else {
            m
        }
    }
}

/// What one attribute string yields: no table when it has fewer than four
/// tokens, else a table named by the first token, with the arity of the
/// second token (zero if unparsable) and the positional code map.
pub open spec fn spec_table_of(s: Seq<char>) -> Option<SpecTable> {
    let toks = split_ws(s);
    if toks.len() >= 4 {
        let arity = spec_arity(toks);
        let e = symbols_end(toks, arity);
        Some(
            SpecTable {
                name: toks[0],
                arity,
                codes: table_map(toks.subrange(2, e), toks.subrange(e, toks.len() as int)),
            },
        )
    } else {
        None
    }
}

/// One symbolic enumeration decoded from a hierarchy attribute: a name,
/// the declared number of symbol slots, and the code-to-symbol pairs in
/// the order they were decoded (a later pair with the same code wins).
pub struct FstEnum {
    pub name: String,
    pub length: usize,
    pub map: Vec<(u8, String)>,
}

/// The map that a pair list denotes: pairs inserted in order, so the
/// later of two pairs with the same code wins.
pub open spec fn pairs_map(s: Seq<(u8, String)>) -> Map<u8, Seq<char>>
    decreases s.len(),
{
    if s.len() == 0 {
        Map::empty()
    } else {
        pairs_map(s.drop_last()).insert(s.last().0, s.last().1@)
    }
}

impl FstEnum {
    /// The mathematical table this value denotes.
    pub open spec fn view_table(self) -> SpecTable {
        SpecTable { name: self.name@, arity: self.length as nat, codes: pairs_map(self.map@) }
    }

    /// The table invariant: no more code-to-symbol pairs than symbol slots.
    pub open spec fn wf(self) -> bool {
        self.map@.len() <= self.length
    }

    /// Looks a code up in the table, honouring last-pair-wins.
    pub fn lookup(&self, code: u8) -> (r: Option<&String>)
        ensures
            r is Some <==> pairs_map(self.map@).contains_key(code),
            r is Some ==> r->0@ == pairs_map(self.map@)[code],
    {
        let mut j = self.map.len();
        while j > 0
            invariant
                j <= self.map@.len(),
                forall|l: int| j <= l < self.map@.len() ==> self.map@[l].0 != code,
            decreases j,
        {
            j = j - 1;
            if self.map[j].0 == code {
                proof {
                    lemma_pairs_map_index(self.map@, j as int, code);
                }
                return Some(&self.map[j].1);
            }
        }
        proof {
            lemma_pairs_map_absent(self.map@, code);
        }
        None
    }
}

proof fn lemma_pairs_map_index(s: Seq<(u8, String)>, j: int, code: u8)
    requires
        0 <= j < s.len(),
        s[j].0 == code,
        forall|l: int| j < l < s.len() ==> s[l].0 != code,
    ensures
        pairs_map(s).contains_key(code),
        pairs_map(s)[code] == s[j].1@,
    decreases s.len(),
{
    if j == s.len() - 1 {
    } else {
        lemma_pairs_map_index(s.drop_last(), j, code);
    }
}

proof fn lemma_pairs_map_absent(s: Seq<(u8, String)>, code: u8)
    requires
        forall|l: int| 0 <= l < s.len() ==> s[l].0 != code,
    ensures
        !pairs_map(s).contains_key(code),
    decreases s.len(),
{
    if s.len() > 0 {
        lemma_pairs_map_absent(s.drop_last(), code);
    }
}

/// Decodes one hierarchy attribute string into an enum table, best-effort:
/// fewer than four tokens yields nothing, an unparsable arity token yields
/// a table with no symbol slots, and unparsable code tokens are skipped.
pub fn hier_to_enum(attr_string: &str) -> (r: Option<FstEnum>)
    ensures
        r is Some <==> spec_table_of(attr_string@) is Some,
        r is None <==> split_ws(attr_string@).len() < 4,
        r is Some ==> r->0.view_table() == spec_table_of(attr_string@)->0,
        r is Some ==> r->0.wf(),
{
    let toks = split_whitespace_tokens(attr_string);
    proof {
        assert(toks@.len() == split_ws(attr_string@).len());
    }
    if toks.len() < 4 {
        return None;
    }
    let ghost stoks = split_ws(attr_string@);
    let arity: usize = match parse_dec_usize(toks[1].as_str()) {
        Some(n) => n,
        None => 0,
    };
    proof {
        assert(stoks[1] == views_of(toks@)[1]);
        assert(arity as nat == spec_arity(stoks));
    }
    let name = toks[0].clone();
    let end_names: usize = if arity <= toks.len() - 2 {
        2 + arity
    } else {
        toks.len()
    };
    proof {
        assert(end_names as int == symbols_end(stoks, arity as nat));
    }
    let n_names: usize = end_names - 2;
    let n_codes: usize = toks.len() - end_names;
    let k: usize = if n_names <= n_codes {
        n_names
    } else {
        n_codes
    };
    let ghost snames = stoks.subrange(2, end_names as int);
    let ghost scodes = stoks.subrange(end_names as int, stoks.len() as int);
    let mut map: Vec<(u8, String)> = Vec::new();
    let mut i: usize = 0;
    while i < k
        invariant
            0 <= i <= k,
            k == vstd::math::min(snames.len() as int, scodes.len() as int),
            snames == stoks.subrange(2, end_names as int),
            scodes == stoks.subrange(end_names as int, stoks.len() as int),
            stoks == views_of(toks@),
            2 + snames.len() == end_names,
            end_names + scodes.len() == stoks.len(),
            n_names == snames.len(),
            k <= n_names <= arity,
            toks@.len() == stoks.len(),
            map@.len() <= i,
            pairs_map(map@) == table_map(snames.take(i as int), scodes.take(i as int)),
        decreases k - i,
    {
        proof {
            assert(views_of(toks@)[end_names + i] == toks@[end_names as int + i].view());
            assert(scodes[i as int] == stoks[end_names + i]);
            assert(snames[i as int] == stoks[2 + i]);
        }
        let parsed = parse_radix2(toks[end_names + i].as_str());
        proof {
            assert(snames.take(i as int + 1).drop_last() =~= snames.take(i as int));
            assert(scodes.take(i as int + 1).drop_last() =~= scodes.take(i as int));
            assert(snames.take(i as int + 1).last() == snames[i as int]);
            assert(scodes.take(i as int + 1).last() == scodes[i as int]);
        }
        match parsed {
            Some(v) => {
                let code = narrow_to_u8(v);
                let sym = toks[2 + i].clone();
                let ghost m0 = map@;
                map.push((code, sym));
                proof {
                    assert(map@.drop_last() =~= m0);
                    assert(pairs_map(map@) == table_map(
                        snames.take(i as int + 1),
                        scodes.take(i as int + 1),
                    ));
                }
            },
            None => {
                proof {
                    assert(pairs_map(map@) == table_map(
                        snames.take(i as int + 1),
                        scodes.take(i as int + 1),
                    ));
                }
            },
        }
        i = i + 1;
    }
    proof {
        lemma_table_map_trimmed(snames, scodes);
        assert(pairs_map(map@) == table_map(snames, scodes));
    }
    Some(FstEnum { name, length: arity, map })
}

/// `table_map` only reads the paired prefix of the longer sequence.
proof fn lemma_table_map_trimmed(names: Seq<Seq<char>>, codes: Seq<Seq<char>>)
    ensures
        table_map(names, codes) == table_map(
            names.take(vstd::math::min(names.len() as int, codes.len() as int)),
            codes.take(vstd::math::min(names.len() as int, codes.len() as int)),
        ),
{
    let k = vstd::math::min(names.len() as int, codes.len() as int);
    if k <= 0 {
        assert(table_map(names.take(k), codes.take(k)) == Map::<u8, Seq<char>>::empty());
    } else {
        assert(names.take(k).take(k - 1) =~= names.take(k - 1));
        assert(codes.take(k).take(k - 1) =~= codes.take(k - 1));
        assert(names.take(k)[k - 1] == names[k - 1]);
        assert(codes.take(k)[k - 1] == codes[k - 1]);
    }
}

} // verus!
