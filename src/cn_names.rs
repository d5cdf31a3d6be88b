//! Chinese/English name tables read from CSV files.

use vstd::prelude::*;
use crate::pegasus::{pairs, set_extra, unique_keys};
use crate::text::lower_of;

verus! {

/// One row of a Chinese/English name table.
#[derive(Debug, Clone)]
pub struct Jy6dDzEntry {
    pub english_name: String,
    pub chinese_name: String,
}

/// One row of a Chinese ROM name database.
#[derive(Debug, Clone)]
pub struct CnRomEntry {
    pub english_name: String,
    pub chinese_name: String,
}

/// The fields of a CSV line from position 0 of `s` on: `cur` is the field under
/// way, `quoted` whether a quote is open. Commas outside quotes separate
/// fields; a doubled quote inside quotes stands for one quote.
pub open spec fn csv_acc(s: Seq<char>, cur: Seq<char>, quoted: bool, fields: Seq<Seq<char>>) -> Seq<Seq<char>>
    decreases s.len(),
{
    if s.len() == 0 {
        fields.push(cur)
    } else if s[0] == '"' {
        if quoted {
            if s.len() > 1 && s[1] == '"' {
                csv_acc(s.skip(2), cur.push('"'), true, fields)
            } else {
                csv_acc(s.drop_first(), cur, false, fields)
            }
        } else {
            csv_acc(s.drop_first(), cur, true, fields)
        }
    } else if s[0] == ',' && !quoted {
        csv_acc(s.drop_first(), Seq::empty(), quoted, fields.push(cur))
    } else {
        csv_acc(s.drop_first(), cur.push(s[0]), quoted, fields)
    }
}

/// The fields of one CSV line.
pub open spec fn csv_fields(s: Seq<char>) -> Seq<Seq<char>> {
    csv_acc(s, Seq::empty(), false, Seq::empty())
}

/// Splits one CSV line into its fields, honouring double quotes.
pub fn parse_csv_line(line: &str) -> (r: Vec<String>)
    ensures
        crate::types::strs(r@) == csv_fields(line@),
{
    let s = crate::text::chars_of(line);
    let mut fields: Vec<String> = Vec::new();
    let mut cur: Vec<char> = Vec::new();
    let mut quoted = false;
    let mut i: usize = 0;
    proof {
        assert(s@.skip(0) =~= s@);
        assert(crate::types::strs(fields@) =~= Seq::<Seq<char>>::empty());
    }
    while i < s.len()
        invariant
            i <= s.len(),
            csv_fields(s@) == csv_acc(s@.skip(i as int), cur@, quoted, crate::types::strs(fields@)),
        decreases s.len() - i,
    {
        let c = s[i];
        proof {
            assert(s@.skip(i as int).drop_first() =~= s@.skip(i + 1));
        }
        if c == '"' {
            if quoted {
                if i + 1 < s.len() && s[i + 1] == '"' {
                    cur.push('"');
                    proof {
                        assert(s@.skip(i as int).skip(2) =~= s@.skip(i + 2));
                    }
                    i = i + 2;
                } else {
                    quoted = false;
                    i = i + 1;
                }
            } else {
                quoted = true;
                i = i + 1;
            }
        } else if c == ',' && !quoted {
            let ghost before = crate::types::strs(fields@);
            let ghost cv = cur@;
            fields.push(crate::text::string_of(&cur));
            proof {
                assert(crate::types::strs(fields@) =~= before.push(cv));
            }
            cur = Vec::new();
            i = i + 1;
        } else {
            cur.push(c);
            i = i + 1;
        }
    }
    proof {
        assert(s@.skip(i as int) =~= Seq::<char>::empty());
    }
    let ghost before = crate::types::strs(fields@);
    let ghost cv = cur@;
    fields.push(crate::text::string_of(&cur));
    proof {
        assert(crate::types::strs(fields@) =~= before.push(cv));
    }
    fields
}

/// The table from the first names to the second names of the rows where both
/// are present, keyed by the lowercase first name; a later row wins.
pub open spec fn name_table(rows: Seq<(Seq<char>, Seq<char>)>) -> Seq<(Seq<char>, Seq<char>)>
    decreases rows.len(),
{
    if rows.len() == 0 {
        Seq::empty()
    } else {
        let prev = name_table(rows.drop_last());
        let (k, v) = rows.last();
        if k.len() > 0 && v.len() > 0 {
            set_extra(prev, lower_of(k), v)
        } else {
            prev
        }
    }
}

pub open spec fn cn_en_rows(entries: Seq<Jy6dDzEntry>) -> Seq<(Seq<char>, Seq<char>)> {
    entries.map_values(|e: Jy6dDzEntry| (e.chinese_name@, e.english_name@))
}

pub open spec fn en_cn_rows(entries: Seq<Jy6dDzEntry>) -> Seq<(Seq<char>, Seq<char>)> {
    entries.map_values(|e: Jy6dDzEntry| (e.english_name@, e.chinese_name@))
}

/// Sets `k` to `v` in a table with unique keys.
fn table_set(table: &mut Vec<(String, String)>, k: String, v: String)
    requires
        unique_keys(pairs(old(table)@)),
    ensures
        unique_keys(pairs(final(table)@)),
        pairs(final(table)@) == set_extra(pairs(old(table)@), k@, v@),
{
    crate::pegasus::set_pair(table, k, v);
}

fn build_table(rows: &Vec<(String, String)>) -> (r: Vec<(String, String)>)
    ensures
        pairs(r@) == name_table(pairs(rows@)),
        unique_keys(pairs(r@)),
{
    let ghost all = pairs(rows@);
    let mut t: Vec<(String, String)> = Vec::new();
    proof {
        assert(all.take(0) =~= Seq::<(Seq<char>, Seq<char>)>::empty());
        assert(pairs(t@) =~= Seq::<(Seq<char>, Seq<char>)>::empty());
    }
    for i in 0..rows.len()
        invariant
            all == pairs(rows@),
            unique_keys(pairs(t@)),
            pairs(t@) == name_table(all.take(i as int)),
    {
        proof {
            assert(all.take(i + 1).drop_last() =~= all.take(i as int));
        }
        let k = &rows[i].0;
        let v = &rows[i].1;
        if !k.as_str().is_empty() && !v.as_str().is_empty() {
            let kl = crate::text::lowercase(k.as_str());
            table_set(&mut t, kl, v.clone());
        }
    }
    proof {
        assert(all.take(rows.len() as int) =~= all);
    }
    t
}

/// The table from lowercase Chinese names to English names.
pub fn build_cn_to_en_map(entries: &[Jy6dDzEntry]) -> (r: Vec<(String, String)>)
    ensures
        pairs(r@) == name_table(cn_en_rows(entries@)),
        unique_keys(pairs(r@)),
{
    let mut rows: Vec<(String, String)> = Vec::new();
    for i in 0..entries.len()
        invariant
            rows.len() == i,
            forall|q: int| 0 <= q < i ==> (#[trigger] rows@[q]).0@ == entries@[q].chinese_name@ && rows@[q].1@ == entries@[q].english_name@,
    {
        rows.push((entries[i].chinese_name.clone(), entries[i].english_name.clone()));
    }
    proof {
        assert(pairs(rows@) =~= cn_en_rows(entries@));
    }
    build_table(&rows)
}

/// The table from lowercase English names to Chinese names.
pub fn build_en_to_cn_map(entries: &[Jy6dDzEntry]) -> (r: Vec<(String, String)>)
    ensures
        pairs(r@) == name_table(en_cn_rows(entries@)),
        unique_keys(pairs(r@)),
{
    let mut rows: Vec<(String, String)> = Vec::new();
    for i in 0..entries.len()
        invariant
            rows.len() == i,
            forall|q: int| 0 <= q < i ==> (#[trigger] rows@[q]).0@ == entries@[q].english_name@ && rows@[q].1@ == entries@[q].chinese_name@,
    {
        rows.push((entries[i].english_name.clone(), entries[i].chinese_name.clone()));
    }
    proof {
        assert(pairs(rows@) =~= en_cn_rows(entries@));
    }
    build_table(&rows)
}

} // verus!
