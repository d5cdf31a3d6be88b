//! The layout of the configuration directory, and path spellings used as names.

use vstd::prelude::*;
use crate::text::{ascii_lower, trim};

verus! {

/// `part` appended to the directory `base` with one `/` between them.
pub open spec fn join(base: Seq<char>, part: Seq<char>) -> Seq<char> {
    if base.len() == 0 {
        part
    } else if base.last() == '/' || base.last() == '\\' {
        base + part
    } else {
        base + seq!['/'] + part
    }
}

fn join_exec(base: &str, part: &str) -> (r: String)
    ensures
        r@ == join(base@, part@),
{
    let mut b = crate::text::chars_of(base);
    let mut p = crate::text::chars_of(part);
    if b.len() > 0 && b[b.len() - 1] != '/' && b[b.len() - 1] != '\\' {
        b.push('/');
    }
    b.append(&mut p);
    crate::text::string_of(&b)
}

/// The media directory under the configuration directory.
pub fn get_media_dir(config_dir: &str) -> (r: String)
    ensures
        r@ == join(config_dir@, "media"@),
{
    join_exec(config_dir, "media")
}

/// The directory of temporary data under the configuration directory.
pub fn get_temp_dir(config_dir: &str) -> (r: String)
    ensures
        r@ == join(config_dir@, "temp"@),
{
    join_exec(config_dir, "temp")
}

/// The settings file under the configuration directory.
pub fn get_settings_path(config_dir: &str) -> (r: String)
    ensures
        r@ == join(config_dir@, "settings.json"@),
{
    join_exec(config_dir, "settings.json")
}

/// The data directory (provider databases) under the configuration directory.
pub fn get_data_dir(config_dir: &str) -> (r: String)
    ensures
        r@ == join(config_dir@, "data"@),
{
    join_exec(config_dir, "data")
}

/// A library path spelled as one directory name: drive colons dropped, path
/// separators turned into `_`, and `_` trimmed from both ends.
pub open spec fn dirname_chars(s: Seq<char>) -> Seq<char>
    decreases s.len(),
{
    if s.len() == 0 {
        Seq::empty()
    } else {
        let prev = dirname_chars(s.drop_last());
        let c = s.last();
        if c == ':' {
            prev
        } else if c == '\\' || c == '/' {
            prev.push('_')
        } else {
            prev.push(c)
        }
    }
}

/// `s` without leading and trailing `_`.
pub open spec fn trim_underscores(s: Seq<char>, i: int, j: int) -> Seq<char>
    decreases j - i,
{
    if i < j && s[i] == '_' {
        trim_underscores(s, i + 1, j)
    } else if i < j && s[j - 1] == '_' {
        trim_underscores(s, i, j - 1)
    } else {
        s.subrange(i, j)
    }
}

pub open spec fn path_dirname(s: Seq<char>) -> Seq<char> {
    let d = dirname_chars(s);
    trim_underscores(d, 0, d.len() as int)
}

/// A library path spelled as one directory name (`z:\` gives `z`, `d:\games\`
/// gives `d_games`).
pub fn normalize_path_to_dirname(path: &str) -> (r: String)
    ensures
        r@ == path_dirname(path@),
{
    let s = crate::text::chars_of(path);
    let mut d: Vec<char> = Vec::new();
    for k in 0..s.len()
        invariant
            d@ == dirname_chars(s@.take(k as int)),
    {
        proof {
            assert(s@.take(k + 1).drop_last() =~= s@.take(k as int));
        }
        let c = s[k];
        if c == ':' {
        } else if c == '\\' || c == '/' {
            d.push('_');
        } else {
            d.push(c);
        }
    }
    proof {
        assert(s@.take(s.len() as int) =~= s@);
    }
    let mut i: usize = 0;
    let mut j: usize = d.len();
    while i < j && (d[i] == '_' || d[j - 1] == '_')
        invariant
            i <= j <= d.len(),
            trim_underscores(d@, 0, d@.len() as int) == trim_underscores(d@, i as int, j as int),
        decreases j - i,
    {
        if d[i] == '_' {
            i = i + 1;
        } else {
            j = j - 1;
        }
    }
    let r = crate::text::slice(&d, i, j);
    crate::text::string_of(&r)
}

/// The temporary directory of one system of one ROM library.
pub fn get_temp_dir_for_library(config_dir: &str, library_path: &str, system: &str) -> (r: String)
    ensures
        r@ == join(join(join(config_dir@, "temp"@), path_dirname(library_path@)), system@),
{
    let t = get_temp_dir(config_dir);
    let n = normalize_path_to_dirname(library_path);
    let l = join_exec(t.as_str(), n.as_str());
    join_exec(l.as_str(), system)
}

/// A file extension as compared: trimmed, without leading dots, lowercase.
pub open spec fn strip_dots(s: Seq<char>) -> Seq<char>
    decreases s.len(),
{
    if s.len() > 0 && s[0] == '.' {
        strip_dots(s.drop_first())
    } else {
        s
    }
}

/// A file extension as compared: trimmed, without leading dots, lowercase.
pub fn normalize_extension(ext: &str) -> (r: String)
    ensures
        r@ == crate::text::lower_of(strip_dots(trim(ext@))),
{
    let t = crate::text::trim_chars(&crate::text::chars_of(ext));
    let mut i: usize = 0;
    proof {
        assert(t@.skip(0) =~= t@);
    }
    while i < t.len() && t[i] == '.'
        invariant
            i <= t.len(),
            strip_dots(t@) == strip_dots(t@.skip(i as int)),
        decreases t.len() - i,
    {
        proof {
            assert(t@.skip(i as int).drop_first() =~= t@.skip(i + 1));
        }
        i = i + 1;
    }
    let rest = crate::text::slice(&t, i, t.len());
    proof {
        assert(rest@ =~= t@.skip(i as int));
    }
    crate::text::lowercase(crate::text::string_of(&rest).as_str())
}

/// A directory path with `/` separators and a lowercase drive letter.
pub open spec fn normalized_path(s: Seq<char>) -> Seq<char> {
    let t = Seq::new(s.len(), |i: int| if s[i] == '\\' { '/' } else { s[i] });
    if t.len() >= 2 && t[1] == ':' {
        t.update(0, ascii_lower(t[0]))
    } else {
        t
    }
}

/// A directory path with `/` separators and a lowercase drive letter.
pub fn normalize_path(path: &str) -> (r: String)
    ensures
        r@ == normalized_path(path@),
{
    let s = crate::text::chars_of(path);
    let mut t: Vec<char> = Vec::new();
    for k in 0..s.len()
        invariant
            t@ == Seq::new(k as nat, |i: int| if s@[i] == '\\' { '/' } else { s@[i] }),
    {
        t.push(if s[k] == '\\' { '/' } else { s[k] });
        proof {
            assert(t@ =~= Seq::new((k + 1) as nat, |i: int| if s@[i] == '\\' { '/' } else { s@[i] }));
        }
    }
    if t.len() >= 2 && t[1] == ':' {
        let c = crate::text::to_ascii_lower(t[0]);
        t.set(0, c);
    }
    crate::text::string_of(&t)
}

} // verus!
