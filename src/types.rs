//! File-type filters: known language families and custom extensions.

use crate::fuzzy::file_name_of;
use crate::text::{
    chars_equal, chars_of, eq_ignore_ascii_case, eq_ignore_ascii_case_spec, lower_of, lowercase,
    trim_chars, trim_spec,
};
use vstd::prelude::*;

verus! {

/// A language family as plain values: the names that select it, then the
/// extensions and the file names it accepts.
pub type FamilyView = (Seq<Seq<char>>, Seq<Seq<char>>, Seq<Seq<char>>);

/// The known language families, in lookup order.
pub open spec fn family_table() -> Seq<FamilyView> {
    seq![
        (seq!["js"@, "javascript"@], seq!["js"@, "jsx"@, "mjs"@, "cjs"@], Seq::empty()),
        (seq!["ts"@, "typescript"@], seq!["ts"@, "tsx"@, "mts"@, "cts"@], Seq::empty()),
        (seq!["json"@], seq!["json"@, "jsonc"@, "json5"@], Seq::empty()),
        (seq!["yaml"@, "yml"@], seq!["yaml"@, "yml"@], Seq::empty()),
        (seq!["toml"@], seq!["toml"@], Seq::empty()),
        (seq!["md"@, "markdown"@], seq!["md"@, "markdown"@, "mdx"@], Seq::empty()),
        (seq!["py"@, "python"@], seq!["py"@, "pyi"@], Seq::empty()),
        (seq!["rs"@, "rust"@], seq!["rs"@], Seq::empty()),
        (seq!["go"@], seq!["go"@], Seq::empty()),
        (seq!["java"@], seq!["java"@], Seq::empty()),
        (seq!["kt"@, "kotlin"@], seq!["kt"@, "kts"@], Seq::empty()),
        (seq!["c"@], seq!["c"@, "h"@], Seq::empty()),
        (seq!["cpp"@, "cxx"@], seq!["cpp"@, "cc"@, "cxx"@, "hpp"@, "hxx"@, "hh"@], Seq::empty()),
        (seq!["cs"@, "csharp"@], seq!["cs"@, "csx"@], Seq::empty()),
        (seq!["php"@], seq!["php"@, "phtml"@], Seq::empty()),
        (seq!["rb"@, "ruby"@], seq!["rb"@, "rake"@, "gemspec"@], Seq::empty()),
        (seq!["sh"@, "bash"@], seq!["sh"@, "bash"@, "zsh"@], Seq::empty()),
        (seq!["zsh"@], seq!["zsh"@], Seq::empty()),
        (seq!["fish"@], seq!["fish"@], Seq::empty()),
        (seq!["html"@], seq!["html"@, "htm"@], Seq::empty()),
        (seq!["css"@], seq!["css"@], Seq::empty()),
        (seq!["scss"@], seq!["scss"@], Seq::empty()),
        (seq!["sass"@], seq!["sass"@], Seq::empty()),
        (seq!["less"@], seq!["less"@], Seq::empty()),
        (seq!["xml"@], seq!["xml"@], Seq::empty()),
        (seq!["docker"@, "dockerfile"@], Seq::empty(), seq!["dockerfile"@]),
        (seq!["make"@, "makefile"@], Seq::empty(), seq!["makefile"@])
    ]
}

/// The lists of the first family from position `i` on that `name` selects.
pub open spec fn family_from(t: Seq<FamilyView>, name: Seq<char>, i: int) -> Option<(Seq<Seq<char>>, Seq<Seq<char>>)>
    decreases t.len() - i,
{
    if i < 0 || i >= t.len() {
        None
    } else if t[i].0.contains(name) {
        Some((t[i].1, t[i].2))
    } else {
        family_from(t, name, i + 1)
    }
}

/// The extensions and file names of the language family that `name` (lowercase) selects.
pub open spec fn known_family(name: Seq<char>) -> Option<(Seq<Seq<char>>, Seq<Seq<char>>)> {
    family_from(family_table(), name, 0)
}

/// Words as plain values.
pub open spec fn words_view(v: Seq<Vec<char>>) -> Seq<Seq<char>> {
    v.map_values(|w: Vec<char>| w@)
}

/// Texts as plain values.
pub open spec fn texts_view(v: Seq<&str>) -> Seq<Seq<char>> {
    v.map_values(|w: &str| w@)
}

/// A language family, as its word lists.
struct Family {
    aliases: Vec<Vec<char>>,
    exts: Vec<Vec<char>>,
    names: Vec<Vec<char>>,
}

spec fn family_view(f: Family) -> FamilyView {
    (words_view(f.aliases@), words_view(f.exts@), words_view(f.names@))
}

/// The characters of each text of `list`.
fn words(list: &[&str]) -> (r: Vec<Vec<char>>)
    ensures
        words_view(r@) == texts_view(list@),
{
    let mut r: Vec<Vec<char>> = Vec::new();
    let mut i: usize = 0;
    while i < list.len()
        invariant
            i <= list.len(),
            words_view(r@) == texts_view(list@.take(i as int)),
        decreases list.len() - i,
    {
        let ghost before = r@;
        let w = chars_of(list[i]);
        r.push(w);
        assert(words_view(r@) =~= words_view(before).push(w@));
        assert(list@.take(i + 1) =~= list@.take(i as int).push(list@[i as int]));
        assert(texts_view(list@.take(i + 1)) =~= texts_view(list@.take(i as int)).push(list@[i as int]@));
        i = i + 1;
    }
    assert(list@.take(list.len() as int) =~= list@);
    r
}

fn family(aliases: Vec<&str>, exts: Vec<&str>, names: Vec<&str>) -> (r: Family)
    ensures
        family_view(r) == (texts_view(aliases@), texts_view(exts@), texts_view(names@)),
{
    Family { aliases: words(aliases.as_slice()), exts: words(exts.as_slice()), names: words(names.as_slice()) }
}

/// The known language families.
fn family_table_exec() -> (r: Vec<Family>)
    ensures
        r@.map_values(|f: Family| family_view(f)) == family_table(),
{
    let mut t: Vec<Family> = Vec::new();
    {
        let aliases: Vec<&str> = vec!["js", "javascript"];
        assert(texts_view(aliases@) =~= seq!["js"@, "javascript"@]);
        let exts: Vec<&str> = vec!["js", "jsx", "mjs", "cjs"];
        assert(texts_view(exts@) =~= seq!["js"@, "jsx"@, "mjs"@, "cjs"@]);
        let names: Vec<&str> = Vec::new();
        assert(texts_view(names@) =~= Seq::<Seq<char>>::empty());
        t.push(family(aliases, exts, names));
        assert(t@.map_values(|f: Family| family_view(f)) =~= family_table().take(1));
    }
    {
        let aliases: Vec<&str> = vec!["ts", "typescript"];
        assert(texts_view(aliases@) =~= seq!["ts"@, "typescript"@]);
        let exts: Vec<&str> = vec!["ts", "tsx", "mts", "cts"];
        assert(texts_view(exts@) =~= seq!["ts"@, "tsx"@, "mts"@, "cts"@]);
        let names: Vec<&str> = Vec::new();
        assert(texts_view(names@) =~= Seq::<Seq<char>>::empty());
        t.push(family(aliases, exts, names));
        assert(t@.map_values(|f: Family| family_view(f)) =~= family_table().take(2));
    }
    {
        let aliases: Vec<&str> = vec!["json"];
        assert(texts_view(aliases@) =~= seq!["json"@]);
        let exts: Vec<&str> = vec!["json", "jsonc", "json5"];
        assert(texts_view(exts@) =~= seq!["json"@, "jsonc"@, "json5"@]);
        let names: Vec<&str> = Vec::new();
        assert(texts_view(names@) =~= Seq::<Seq<char>>::empty());
        t.push(family(aliases, exts, names));
        assert(t@.map_values(|f: Family| family_view(f)) =~= family_table().take(3));
    }
    {
        let aliases: Vec<&str> = vec!["yaml", "yml"];
        assert(texts_view(aliases@) =~= seq!["yaml"@, "yml"@]);
        let exts: Vec<&str> = vec!["yaml", "yml"];
        assert(texts_view(exts@) =~= seq!["yaml"@, "yml"@]);
        let names: Vec<&str> = Vec::new();
        assert(texts_view(names@) =~= Seq::<Seq<char>>::empty());
        t.push(family(aliases, exts, names));
        assert(t@.map_values(|f: Family| family_view(f)) =~= family_table().take(4));
    }
    {
        let aliases: Vec<&str> = vec!["toml"];
        assert(texts_view(aliases@) =~= seq!["toml"@]);
        let exts: Vec<&str> = vec!["toml"];
        assert(texts_view(exts@) =~= seq!["toml"@]);
        let names: Vec<&str> = Vec::new();
        assert(texts_view(names@) =~= Seq::<Seq<char>>::empty());
        t.push(family(aliases, exts, names));
        assert(t@.map_values(|f: Family| family_view(f)) =~= family_table().take(5));
    }
    {
        let aliases: Vec<&str> = vec!["md", "markdown"];
        assert(texts_view(aliases@) =~= seq!["md"@, "markdown"@]);
        let exts: Vec<&str> = vec!["md", "markdown", "mdx"];
        assert(texts_view(exts@) =~= seq!["md"@, "markdown"@, "mdx"@]);
        let names: Vec<&str> = Vec::new();
        assert(texts_view(names@) =~= Seq::<Seq<char>>::empty());
        t.push(family(aliases, exts, names));
        assert(t@.map_values(|f: Family| family_view(f)) =~= family_table().take(6));
    }
    {
        let aliases: Vec<&str> = vec!["py", "python"];
        assert(texts_view(aliases@) =~= seq!["py"@, "python"@]);
        let exts: Vec<&str> = vec!["py", "pyi"];
        assert(texts_view(exts@) =~= seq!["py"@, "pyi"@]);
        let names: Vec<&str> = Vec::new();
        assert(texts_view(names@) =~= Seq::<Seq<char>>::empty());
        t.push(family(aliases, exts, names));
        assert(t@.map_values(|f: Family| family_view(f)) =~= family_table().take(7));
    }
    {
        let aliases: Vec<&str> = vec!["rs", "rust"];
        assert(texts_view(aliases@) =~= seq!["rs"@, "rust"@]);
        let exts: Vec<&str> = vec!["rs"];
        assert(texts_view(exts@) =~= seq!["rs"@]);
        let names: Vec<&str> = Vec::new();
        assert(texts_view(names@) =~= Seq::<Seq<char>>::empty());
        t.push(family(aliases, exts, names));
        assert(t@.map_values(|f: Family| family_view(f)) =~= family_table().take(8));
    }
    {
        let aliases: Vec<&str> = vec!["go"];
        assert(texts_view(aliases@) =~= seq!["go"@]);
        let exts: Vec<&str> = vec!["go"];
        assert(texts_view(exts@) =~= seq!["go"@]);
        let names: Vec<&str> = Vec::new();
        assert(texts_view(names@) =~= Seq::<Seq<char>>::empty());
        t.push(family(aliases, exts, names));
        assert(t@.map_values(|f: Family| family_view(f)) =~= family_table().take(9));
    }
    {
        let aliases: Vec<&str> = vec!["java"];
        assert(texts_view(aliases@) =~= seq!["java"@]);
        let exts: Vec<&str> = vec!["java"];
        assert(texts_view(exts@) =~= seq!["java"@]);
        let names: Vec<&str> = Vec::new();
        assert(texts_view(names@) =~= Seq::<Seq<char>>::empty());
        t.push(family(aliases, exts, names));
        assert(t@.map_values(|f: Family| family_view(f)) =~= family_table().take(10));
    }
    {
        let aliases: Vec<&str> = vec!["kt", "kotlin"];
        assert(texts_view(aliases@) =~= seq!["kt"@, "kotlin"@]);
        let exts: Vec<&str> = vec!["kt", "kts"];
        assert(texts_view(exts@) =~= seq!["kt"@, "kts"@]);
        let names: Vec<&str> = Vec::new();
        assert(texts_view(names@) =~= Seq::<Seq<char>>::empty());
        t.push(family(aliases, exts, names));
        assert(t@.map_values(|f: Family| family_view(f)) =~= family_table().take(11));
    }
    {
        let aliases: Vec<&str> = vec!["c"];
        assert(texts_view(aliases@) =~= seq!["c"@]);
        let exts: Vec<&str> = vec!["c", "h"];
        assert(texts_view(exts@) =~= seq!["c"@, "h"@]);
        let names: Vec<&str> = Vec::new();
        assert(texts_view(names@) =~= Seq::<Seq<char>>::empty());
        t.push(family(aliases, exts, names));
        assert(t@.map_values(|f: Family| family_view(f)) =~= family_table().take(12));
    }
    {
        let aliases: Vec<&str> = vec!["cpp", "cxx"];
        assert(texts_view(aliases@) =~= seq!["cpp"@, "cxx"@]);
        let exts: Vec<&str> = vec!["cpp", "cc", "cxx", "hpp", "hxx", "hh"];
        assert(texts_view(exts@) =~= seq!["cpp"@, "cc"@, "cxx"@, "hpp"@, "hxx"@, "hh"@]);
        let names: Vec<&str> = Vec::new();
        assert(texts_view(names@) =~= Seq::<Seq<char>>::empty());
        t.push(family(aliases, exts, names));
        assert(t@.map_values(|f: Family| family_view(f)) =~= family_table().take(13));
    }
    {
        let aliases: Vec<&str> = vec!["cs", "csharp"];
        assert(texts_view(aliases@) =~= seq!["cs"@, "csharp"@]);
        let exts: Vec<&str> = vec!["cs", "csx"];
        assert(texts_view(exts@) =~= seq!["cs"@, "csx"@]);
        let names: Vec<&str> = Vec::new();
        assert(texts_view(names@) =~= Seq::<Seq<char>>::empty());
        t.push(family(aliases, exts, names));
        assert(t@.map_values(|f: Family| family_view(f)) =~= family_table().take(14));
    }
    {
        let aliases: Vec<&str> = vec!["php"];
        assert(texts_view(aliases@) =~= seq!["php"@]);
        let exts: Vec<&str> = vec!["php", "phtml"];
        assert(texts_view(exts@) =~= seq!["php"@, "phtml"@]);
        let names: Vec<&str> = Vec::new();
        assert(texts_view(names@) =~= Seq::<Seq<char>>::empty());
        t.push(family(aliases, exts, names));
        assert(t@.map_values(|f: Family| family_view(f)) =~= family_table().take(15));
    }
    {
        let aliases: Vec<&str> = vec!["rb", "ruby"];
        assert(texts_view(aliases@) =~= seq!["rb"@, "ruby"@]);
        let exts: Vec<&str> = vec!["rb", "rake", "gemspec"];
        assert(texts_view(exts@) =~= seq!["rb"@, "rake"@, "gemspec"@]);
        let names: Vec<&str> = Vec::new();
        assert(texts_view(names@) =~= Seq::<Seq<char>>::empty());
        t.push(family(aliases, exts, names));
        assert(t@.map_values(|f: Family| family_view(f)) =~= family_table().take(16));
    }
    {
        let aliases: Vec<&str> = vec!["sh", "bash"];
        assert(texts_view(aliases@) =~= seq!["sh"@, "bash"@]);
        let exts: Vec<&str> = vec!["sh", "bash", "zsh"];
        assert(texts_view(exts@) =~= seq!["sh"@, "bash"@, "zsh"@]);
        let names: Vec<&str> = Vec::new();
        assert(texts_view(names@) =~= Seq::<Seq<char>>::empty());
        t.push(family(aliases, exts, names));
        assert(t@.map_values(|f: Family| family_view(f)) =~= family_table().take(17));
    }
    {
        let aliases: Vec<&str> = vec!["zsh"];
        assert(texts_view(aliases@) =~= seq!["zsh"@]);
        let exts: Vec<&str> = vec!["zsh"];
        assert(texts_view(exts@) =~= seq!["zsh"@]);
        let names: Vec<&str> = Vec::new();
        assert(texts_view(names@) =~= Seq::<Seq<char>>::empty());
        t.push(family(aliases, exts, names));
        assert(t@.map_values(|f: Family| family_view(f)) =~= family_table().take(18));
    }
    {
        let aliases: Vec<&str> = vec!["fish"];
        assert(texts_view(aliases@) =~= seq!["fish"@]);
        let exts: Vec<&str> = vec!["fish"];
        assert(texts_view(exts@) =~= seq!["fish"@]);
        let names: Vec<&str> = Vec::new();
        assert(texts_view(names@) =~= Seq::<Seq<char>>::empty());
        t.push(family(aliases, exts, names));
        assert(t@.map_values(|f: Family| family_view(f)) =~= family_table().take(19));
    }
    {
        let aliases: Vec<&str> = vec!["html"];
        assert(texts_view(aliases@) =~= seq!["html"@]);
        let exts: Vec<&str> = vec!["html", "htm"];
        assert(texts_view(exts@) =~= seq!["html"@, "htm"@]);
        let names: Vec<&str> = Vec::new();
        assert(texts_view(names@) =~= Seq::<Seq<char>>::empty());
        t.push(family(aliases, exts, names));
        assert(t@.map_values(|f: Family| family_view(f)) =~= family_table().take(20));
    }
    {
        let aliases: Vec<&str> = vec!["css"];
        assert(texts_view(aliases@) =~= seq!["css"@]);
        let exts: Vec<&str> = vec!["css"];
        assert(texts_view(exts@) =~= seq!["css"@]);
        let names: Vec<&str> = Vec::new();
        assert(texts_view(names@) =~= Seq::<Seq<char>>::empty());
        t.push(family(aliases, exts, names));
        assert(t@.map_values(|f: Family| family_view(f)) =~= family_table().take(21));
    }
    {
        let aliases: Vec<&str> = vec!["scss"];
        assert(texts_view(aliases@) =~= seq!["scss"@]);
        let exts: Vec<&str> = vec!["scss"];
        assert(texts_view(exts@) =~= seq!["scss"@]);
        let names: Vec<&str> = Vec::new();
        assert(texts_view(names@) =~= Seq::<Seq<char>>::empty());
        t.push(family(aliases, exts, names));
        assert(t@.map_values(|f: Family| family_view(f)) =~= family_table().take(22));
    }
    {
        let aliases: Vec<&str> = vec!["sass"];
        assert(texts_view(aliases@) =~= seq!["sass"@]);
        let exts: Vec<&str> = vec!["sass"];
        assert(texts_view(exts@) =~= seq!["sass"@]);
        let names: Vec<&str> = Vec::new();
        assert(texts_view(names@) =~= Seq::<Seq<char>>::empty());
        t.push(family(aliases, exts, names));
        assert(t@.map_values(|f: Family| family_view(f)) =~= family_table().take(23));
    }
    {
        let aliases: Vec<&str> = vec!["less"];
        assert(texts_view(aliases@) =~= seq!["less"@]);
        let exts: Vec<&str> = vec!["less"];
        assert(texts_view(exts@) =~= seq!["less"@]);
        let names: Vec<&str> = Vec::new();
        assert(texts_view(names@) =~= Seq::<Seq<char>>::empty());
        t.push(family(aliases, exts, names));
        assert(t@.map_values(|f: Family| family_view(f)) =~= family_table().take(24));
    }
    {
        let aliases: Vec<&str> = vec!["xml"];
        assert(texts_view(aliases@) =~= seq!["xml"@]);
        let exts: Vec<&str> = vec!["xml"];
        assert(texts_view(exts@) =~= seq!["xml"@]);
        let names: Vec<&str> = Vec::new();
        assert(texts_view(names@) =~= Seq::<Seq<char>>::empty());
        t.push(family(aliases, exts, names));
        assert(t@.map_values(|f: Family| family_view(f)) =~= family_table().take(25));
    }
    {
        let aliases: Vec<&str> = vec!["docker", "dockerfile"];
        assert(texts_view(aliases@) =~= seq!["docker"@, "dockerfile"@]);
        let exts: Vec<&str> = Vec::new();
        assert(texts_view(exts@) =~= Seq::<Seq<char>>::empty());
        let names: Vec<&str> = vec!["dockerfile"];
        assert(texts_view(names@) =~= seq!["dockerfile"@]);
        t.push(family(aliases, exts, names));
        assert(t@.map_values(|f: Family| family_view(f)) =~= family_table().take(26));
    }
    {
        let aliases: Vec<&str> = vec!["make", "makefile"];
        assert(texts_view(aliases@) =~= seq!["make"@, "makefile"@]);
        let exts: Vec<&str> = Vec::new();
        assert(texts_view(exts@) =~= Seq::<Seq<char>>::empty());
        let names: Vec<&str> = vec!["makefile"];
        assert(texts_view(names@) =~= seq!["makefile"@]);
        t.push(family(aliases, exts, names));
        assert(t@.map_values(|f: Family| family_view(f)) =~= family_table().take(27));
    }
    assert(family_table().take(27) =~= family_table());
    t
}

/// A copy of a list of words.
fn copy_words(v: &Vec<Vec<char>>) -> (r: Vec<Vec<char>>)
    ensures
        words_view(r@) == words_view(v@),
{
    let mut r: Vec<Vec<char>> = Vec::new();
    let mut i: usize = 0;
    while i < v.len()
        invariant
            i <= v.len(),
            words_view(r@) == words_view(v@.take(i as int)),
        decreases v.len() - i,
    {
        let ghost before = r@;
        let w = crate::text::copy_range(v[i].as_slice(), 0, v[i].len());
        assert(v[i as int]@.subrange(0, v[i as int]@.len() as int) =~= v[i as int]@);
        r.push(w);
        assert(words_view(r@) =~= words_view(before).push(w@));
        assert(v@.take(i + 1) =~= v@.take(i as int).push(v@[i as int]));
        assert(words_view(v@.take(i + 1)) =~= words_view(v@.take(i as int)).push(v@[i as int]@));
        i = i + 1;
    }
    assert(v@.take(v.len() as int) =~= v@);
    r
}

/// Whether `name` is one of `list`.
fn is_one_of(name: &[char], list: &Vec<Vec<char>>) -> (r: bool)
    ensures
        r == words_view(list@).contains(name@),
{
    let mut i: usize = 0;
    while i < list.len()
        invariant
            i <= list.len(),
            forall|j: int| 0 <= j < i ==> #[trigger] words_view(list@)[j] != name@,
        decreases list.len() - i,
    {
        if chars_equal(name, list[i].as_slice()) {
            assert(words_view(list@)[i as int] == name@);
            return true;
        }
        i = i + 1;
    }
    false
}

/// The lists of the family that `name` selects, if any.
pub fn family_lists(name: &[char]) -> (r: Option<(Vec<Vec<char>>, Vec<Vec<char>>)>)
    ensures
        match r {
            Some(l) => known_family(name@) == Some((words_view(l.0@), words_view(l.1@))),
            None => known_family(name@) is None,
        },
{
    let table = family_table_exec();
    let ghost t = family_table();
    let mut i: usize = 0;
    while i < table.len()
        invariant
            i <= table.len(),
            table@.map_values(|f: Family| family_view(f)) == t,
            t == family_table(),
            known_family(name@) == family_from(t, name@, i as int),
        decreases table.len() - i,
    {
        let f = &table[i];
        assert(t[i as int] == family_view(*f));
        if is_one_of(name, &f.aliases) {
            return Some((copy_words(&f.exts), copy_words(&f.names)));
        }
        i = i + 1;
    }
    None
}

/// A file-type filter.
pub enum TypeFilter {
    /// A known family: files with one of these extensions or names.
    Known { exts: Vec<Vec<char>>, names: Vec<Vec<char>> },
    /// A custom type: files with this extension, or with this exact name.
    Custom(Vec<char>),
}

/// The number of `.` characters at the start of `s`.
pub open spec fn leading_dots(s: Seq<char>) -> nat
    decreases s.len(),
{
    if s.len() == 0 || s[0] != '.' {
        0
    } else {
        1 + leading_dots(s.drop_first())
    }
}

proof fn lemma_leading_dots_bound(s: Seq<char>)
    ensures
        leading_dots(s) <= s.len(),
    decreases s.len(),
{
    if s.len() > 0 && s[0] == '.' {
        lemma_leading_dots_bound(s.drop_first());
    }
}

/// A type name as looked up: trimmed, leading dots removed, lowered.
pub open spec fn normalized_type(t: Seq<char>) -> Seq<char> {
    let trimmed = trim_spec(t);
    lower_of(trimmed.subrange(leading_dots(trimmed) as int, trimmed.len() as int))
}

/// The filter a type name selects: none for a blank name, the known family
/// its normalized form names, else a custom filter on that form.
pub open spec fn filter_matches_name(t: Seq<char>, r: Option<TypeFilter>) -> bool {
    if trim_spec(t).len() == 0 {
        r is None
    } else {
        let n = normalized_type(t);
        match r {
            Some(TypeFilter::Known { exts, names }) => known_family(n) == Some(
                (words_view(exts@), words_view(names@)),
            ),
            Some(TypeFilter::Custom(c)) => known_family(n) is None && c@ == n,
            None => false,
        }
    }
}

/// Resolves a `type` option into a filter.
pub fn resolve_type_filter(kind_name: Option<&str>) -> (r: Option<TypeFilter>)
    ensures
        match kind_name {
            Some(t) => filter_matches_name(t@, r),
            None => r is None,
        },
{
    let t = match kind_name {
        Some(t) => t,
        None => return None,
    };
    let chars = crate::text::chars_of(t);
    let trimmed = trim_chars(chars.as_slice());
    if trimmed.len() == 0 {
        return None;
    }
    let mut start: usize = 0;
    assert(trimmed@.subrange(0, trimmed.len() as int) =~= trimmed@);
    while start < trimmed.len() && trimmed[start] == '.'
        invariant
            start <= trimmed.len(),
            leading_dots(trimmed@) == start + leading_dots(trimmed@.subrange(start as int, trimmed.len() as int)),
        decreases trimmed.len() - start,
    {
        assert(trimmed@.subrange(start as int, trimmed.len() as int).drop_first() =~= trimmed@.subrange(start + 1, trimmed.len() as int));
        start = start + 1;
    }
    proof {
        lemma_leading_dots_bound(trimmed@);
    }
    let stripped = crate::text::copy_range(trimmed.as_slice(), start, trimmed.len());
    let normalized = lowercase(stripped.as_slice());
    match family_lists(normalized.as_slice()) {
        Some((exts, names)) => Some(TypeFilter::Known { exts, names }),
        None => Some(TypeFilter::Custom(normalized)),
    }
}

/// `w` equals one of `list` up to ASCII case.
pub open spec fn one_of(w: Seq<char>, list: Seq<Seq<char>>) -> bool {
    exists|i: int| 0 <= i < list.len() && eq_ignore_ascii_case_spec(w, #[trigger] list[i])
}

fn matches_one_of(w: &[char], list: &Vec<Vec<char>>) -> (r: bool)
    ensures
        r == one_of(w@, words_view(list@)),
{
    let mut i: usize = 0;
    while i < list.len()
        invariant
            i <= list.len(),
            forall|j: int| 0 <= j < i ==> !eq_ignore_ascii_case_spec(w@, #[trigger] words_view(list@)[j]),
        decreases list.len() - i,
    {
        if eq_ignore_ascii_case(w, list[i].as_slice()) {
            assert(eq_ignore_ascii_case_spec(w@, words_view(list@)[i as int]));
            return true;
        }
        i = i + 1;
    }
    false
}

impl TypeFilter {
    /// Whether the filter accepts this file extension.
    pub open spec fn accepts_ext(&self, ext: Seq<char>) -> bool {
        match self {
            TypeFilter::Known { exts, .. } => one_of(ext, words_view(exts@)),
            TypeFilter::Custom(c) => eq_ignore_ascii_case_spec(c@, ext),
        }
    }

    /// Whether the filter accepts this file name.
    pub open spec fn accepts_name(&self, name: Seq<char>) -> bool {
        match self {
            TypeFilter::Known { names, .. } => one_of(name, words_view(names@)),
            TypeFilter::Custom(c) => eq_ignore_ascii_case_spec(c@, name),
        }
    }

    /// Whether the filter accepts the extension `ext`, ignoring ASCII case.
    pub fn match_ext(&self, ext: &[char]) -> (r: bool)
        ensures
            r == self.accepts_ext(ext@),
    {
        match self {
            TypeFilter::Known { exts, .. } => matches_one_of(ext, exts),
            TypeFilter::Custom(c) => eq_ignore_ascii_case(c.as_slice(), ext),
        }
    }

    /// Whether the filter accepts the file name `name`, ignoring ASCII case.
    pub fn match_name(&self, name: &[char]) -> (r: bool)
        ensures
            r == self.accepts_name(name@),
    {
        match self {
            TypeFilter::Known { names, .. } => matches_one_of(name, names),
            TypeFilter::Custom(c) => eq_ignore_ascii_case(c.as_slice(), name),
        }
    }
}

/// The position of the last `.` in `s`, or -1.
pub open spec fn last_dot(s: Seq<char>) -> int
    decreases s.len(),
{
    if s.len() == 0 {
        -1
    } else if s.last() == '.' {
        s.len() - 1
    } else {
        last_dot(s.drop_last())
    }
}

proof fn lemma_last_dot_bound(s: Seq<char>)
    ensures
        -1 <= last_dot(s) < s.len(),
    decreases s.len(),
{
    if s.len() > 0 && s.last() != '.' {
        lemma_last_dot_bound(s.drop_last());
    }
}

/// The extension of a file name: what follows its last `.`, empty when it
/// has none or when that dot begins the name.
pub open spec fn extension_of(name: Seq<char>) -> Seq<char> {
    let k = last_dot(name);
    if k <= 0 {
        Seq::empty()
    } else {
        name.subrange(k + 1, name.len() as int)
    }
}

/// The extension of a file name.
pub fn extension_chars(name: &[char]) -> (r: Vec<char>)
    ensures
        r@ == extension_of(name@),
{
    let mut k: usize = name.len();
    assert(name@.subrange(0, name.len() as int) =~= name@);
    while k > 0 && name[k - 1] != '.'
        invariant
            k <= name.len(),
            last_dot(name@) == last_dot(name@.subrange(0, k as int)),
        decreases k,
    {
        assert(name@.subrange(0, k as int).drop_last() =~= name@.subrange(0, k - 1));
        k = k - 1;
    }
    if k <= 1 {
        proof {
            if k == 1 {
                assert(name@.subrange(0, 1).last() == '.');
            } else {
                assert(name@.subrange(0, 0).len() == 0);
            }
        }
        return Vec::new();
    }
    assert(name@.subrange(0, k as int).last() == '.');
    crate::text::copy_range(name, k, name.len())
}

/// Whether the file at `path` passes `filter`: by its name, or by a
/// non-empty extension.
pub open spec fn passes_type_filter(path: Seq<char>, filter: TypeFilter) -> bool {
    let name = file_name_of(path);
    filter.accepts_name(name) || (extension_of(name).len() > 0 && filter.accepts_ext(extension_of(name)))
}

/// Whether the file at `path` passes `filter`.
pub fn matches_type_filter(path: &[char], filter: &TypeFilter) -> (r: bool)
    ensures
        r == passes_type_filter(path@, *filter),
{
    let base_name = crate::fuzzy::file_name_chars(path);
    if filter.match_name(base_name.as_slice()) {
        return true;
    }
    let ext = extension_chars(base_name.as_slice());
    if ext.len() == 0 {
        return false;
    }
    filter.match_ext(ext.as_slice())
}

} // verus!
