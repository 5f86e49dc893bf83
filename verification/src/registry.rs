use vstd::prelude::*;
use vstd::string::StrSliceExecFns;
use crate::enum_table::{FstEnum, SpecTable, hier_to_enum, spec_table_of};
use crate::tokens::views_of;

verus! {

/// The registry a sequence of tables denotes: tables keyed by name,
/// inserted in order, so the later of two tables with the same name wins.
pub open spec fn tables_map(s: Seq<FstEnum>) -> Map<Seq<char>, SpecTable>
    decreases s.len(),
{
    if s.len() == 0 {
        Map::empty()
    } else {
        tables_map(s.drop_last()).insert(s.last().name@, s.last().view_table())
    }
}

/// The registry that a sequence of attribute strings yields: each string
/// is decoded best-effort, and every table produced is registered under
/// its own name, later ones overwriting earlier ones.
pub open spec fn spec_registry(attrs: Seq<Seq<char>>) -> Map<Seq<char>, SpecTable>
    decreases attrs.len(),
{
    if attrs.len() == 0 {
        Map::empty()
    } else {
        let m = spec_registry(attrs.drop_last());
        match spec_table_of(attrs.last()) {
            Some(t) => m.insert(t.name, t),
            None => m,
        }
    }
}

/// All enum tables of one open trace, keyed by the name embedded in the
/// attribute encoding. Built once at open time, read-only afterwards.
pub struct EnumRegistry {
    pub tables: Vec<FstEnum>,
}

impl EnumRegistry {
    /// The name-to-table mapping this registry denotes.
    pub open spec fn view_map(self) -> Map<Seq<char>, SpecTable> {
        tables_map(self.tables@)
    }

    /// Every registered table is keyed by its own name and satisfies the
    /// table invariant.
    pub open spec fn wf(self) -> bool {
        forall|l: int| 0 <= l < self.tables@.len() ==> (#[trigger] self.tables@[l]).wf()
    }

    /// Retrieves the table registered under `name`, the latest one when
    /// several attributes used the same name.
    pub fn get(&self, name: &str) -> (r: Option<&FstEnum>)
        ensures
            r is Some <==> self.view_map().contains_key(name@),
            r is Some ==> r->0.view_table() == self.view_map()[name@],
            r is Some ==> exists|l: int|
                0 <= l < self.tables@.len() && *r->0 == self.tables@[l],
    {
        let key: String = name.to_owned();
        let mut j = self.tables.len();
        while j > 0
            invariant
                j <= self.tables@.len(),
                key@ == name@,
                forall|l: int| j <= l < self.tables@.len() ==> self.tables@[l].name@ != name@,
            decreases j,
        {
            j = j - 1;
            if key == self.tables[j].name {
                proof {
                    lemma_tables_map_index(self.tables@, j as int, name@);
                }
                return Some(&self.tables[j]);
            }
        }
        proof {
            lemma_tables_map_absent(self.tables@, name@);
        }
        None
    }
}

/// Law: registering two enums under the same name, the later one in
/// hierarchy-event order is the one retrievable afterwards. Stated for any
/// position `j` whose name is not used again later in the sequence: the
/// registry maps that name to exactly the table at `j`.
pub proof fn lemma_tables_map_index(s: Seq<FstEnum>, j: int, name: Seq<char>)
    requires
        0 <= j < s.len(),
        s[j].name@ == name,
        forall|l: int| j < l < s.len() ==> s[l].name@ != name,
    ensures
        tables_map(s).contains_key(name),
        tables_map(s)[name] == s[j].view_table(),
    decreases s.len(),
{
    if j < s.len() - 1 {
        lemma_tables_map_index(s.drop_last(), j, name);
    }
}

/// A name carried by no table in the sequence is absent from the registry.
pub proof fn lemma_tables_map_absent(s: Seq<FstEnum>, name: Seq<char>)
    requires
        forall|l: int| 0 <= l < s.len() ==> s[l].name@ != name,
    ensures
        !tables_map(s).contains_key(name),
    decreases s.len(),
{
    if s.len() > 0 {
        lemma_tables_map_absent(s.drop_last(), name);
    }
}

/// Law: registering two enums under the same name, the later one in
/// hierarchy-event order is the one retrievable afterwards. Stated over
/// the attribute strings themselves: if the attribute at position `j`
/// yields a table named `name` and no later attribute yields one of that
/// name, the registry built from the whole sequence maps `name` to
/// exactly that table.
pub proof fn lemma_registry_last_write_wins(attrs: Seq<Seq<char>>, j: int, name: Seq<char>)
    requires
        0 <= j < attrs.len(),
        spec_table_of(attrs[j]) is Some,
        spec_table_of(attrs[j])->0.name == name,
        forall|l: int|
            j < l < attrs.len() ==> ((#[trigger] spec_table_of(attrs[l])) matches Some(t) ==> t.name
                != name),
    ensures
        spec_registry(attrs).contains_key(name),
        spec_registry(attrs)[name] == spec_table_of(attrs[j])->0,
    decreases attrs.len(),
{
    if j < attrs.len() - 1 {
        assert(forall|l: int|
            0 <= l < attrs.len() - 1 ==> (#[trigger] attrs.drop_last()[l]) == attrs[l]);
        lemma_registry_last_write_wins(attrs.drop_last(), j, name);
        assert(spec_table_of(attrs.last()) == spec_table_of(attrs[attrs.len() - 1]));
    }
}

/// Builds the enum registry from the name strings of all attribute-begin
/// hierarchy events, in event order: each is decoded best-effort and the
/// tables produced are registered name-keyed, last write winning.
pub fn build_enum_registry(attr_strings: &Vec<String>) -> (reg: EnumRegistry)
    ensures
        reg.view_map() == spec_registry(views_of(attr_strings@)),
        reg.wf(),
{
    let mut reg = EnumRegistry { tables: Vec::new() };
    let mut i: usize = 0;
    while i < attr_strings.len()
        invariant
            i <= attr_strings@.len(),
            reg.view_map() == spec_registry(views_of(attr_strings@).take(i as int)),
            reg.wf(),
        decreases attr_strings@.len() - i,
    {
        proof {
            assert(views_of(attr_strings@).take(i as int + 1).drop_last() =~= views_of(
                attr_strings@,
            ).take(i as int));
            assert(views_of(attr_strings@)[i as int] == attr_strings@[i as int]@);
        }
        match hier_to_enum(attr_strings[i].as_str()) {
            Some(table) => {
                let ghost t0 = reg.tables@;
                reg.tables.push(table);
                proof {
                    assert(reg.tables@.drop_last() =~= t0);
                }
            },
            None => {},
        }
        i = i + 1;
    }
    proof {
        assert(views_of(attr_strings@).take(i as int) =~= views_of(attr_strings@));
    }
    reg
}

} // verus!
