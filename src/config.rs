use crate::alias_map::AliasMap;
use crate::error::BrowserError;
use vstd::prelude::*;

verus! {

/// `s` with every backslash turned into a forward slash.
pub open spec fn forward_slashes(s: Seq<char>) -> Seq<char> {
    s.map_values(|c: char| if c == '\\' { '/' } else { c })
}

/// The configuration written on first use: an `aliases` table that maps seven
/// names to directories below `home`.
pub open spec fn default_config_text(home: Seq<char>) -> Seq<char> {
    let h = forward_slashes(home);
    "[aliases]\nhome = \""@ + h + "\"\ndocuments = \""@ + h + "/Documents\"\ndownloads = \""@ + h
        + "/Downloads\"\ndesktop = \""@ + h + "/Desktop\"\npictures = \""@ + h
        + "/Pictures\"\nmusic = \""@ + h + "/Music\"\nvideos = \""@ + h + "/Videos\"\n"@
}

/// The entries of one table of a document: each name with its value when the
/// value is a string, `None` when it is of another kind.
pub type Section = Vec<(String, Option<String>)>;

/// The top level of a document: each name with its table when the value is a
/// table, `None` when it is of another kind.
pub type Outline = Vec<(String, Option<Section>)>;

pub type SectionView = Seq<(Seq<char>, Option<Seq<char>>)>;

pub type OutlineView = Seq<(Seq<char>, Option<SectionView>)>;

/// What the TOML parser makes of `text`, seen as an outline; `None` when the
/// text is not a valid document.
pub uninterp spec fn toml_outline(text: Seq<char>) -> Option<OutlineView>;

/// What the first top-level entry named `name` holds: `None` when no entry
/// has that name, `Some(None)` when its value is not a table.
pub open spec fn entry_named(doc: OutlineView, name: Seq<char>) -> Option<Option<SectionView>>
    decreases doc.len(),
{
    if doc.len() == 0 {
        None
    } else if doc[0].0 == name {
        Some(doc[0].1)
    } else {
        entry_named(doc.drop_first(), name)
    }
}

/// The aliases that a table gives: its string-valued entries.
pub open spec fn section_aliases(sec: SectionView) -> Map<Seq<char>, Seq<char>>
    decreases sec.len(),
{
    if sec.len() == 0 {
        Map::empty()
    } else {
        let rest = section_aliases(sec.drop_last());
        match sec.last().1 {
            Some(path) => rest.insert(sec.last().0, path),
            None => rest,
        }
    }
}

/// The aliases of a document: those of its `aliases` table, none when it has
/// no `aliases` entry, and `None` when that entry is not a table.
pub open spec fn aliases_of(doc: OutlineView) -> Option<Map<Seq<char>, Seq<char>>> {
    match entry_named(doc, "aliases"@) {
        None => Some(Map::empty()),
        Some(Some(sec)) => Some(section_aliases(sec)),
        Some(None) => None,
    }
}

/// No two entries of a table share a name, as in every parsed document.
pub open spec fn section_names_distinct(sec: SectionView) -> bool {
    forall|a: int, b: int| 0 <= a < b < sec.len() ==> sec[a].0 != sec[b].0
}

/// A name is an alias of a table exactly when some entry of that name holds a string.
pub proof fn lemma_section_aliases_domain(sec: SectionView, k: Seq<char>)
    ensures
        section_aliases(sec).contains_key(k) <==> exists|i: int|
            0 <= i < sec.len() && sec[i].0 == k && sec[i].1 is Some,
    decreases sec.len(),
{
    if sec.len() > 0 {
        let prefix = sec.drop_last();
        lemma_section_aliases_domain(prefix, k);
        if section_aliases(prefix).contains_key(k) {
            let i = choose|i: int| 0 <= i < prefix.len() && prefix[i].0 == k && prefix[i].1 is Some;
            assert(sec[i] == prefix[i]);
        }
        if exists|i: int| 0 <= i < sec.len() && sec[i].0 == k && sec[i].1 is Some {
            let i = choose|i: int| 0 <= i < sec.len() && sec[i].0 == k && sec[i].1 is Some;
            if i < sec.len() - 1 {
                assert(prefix[i] == sec[i]);
            }
        }
    }
}

/// A string entry of a table is an alias of it, unless a later entry of the
/// table has the same name.
pub proof fn lemma_table_entry_is_alias(sec: SectionView, i: int)
    requires
        0 <= i < sec.len(),
        sec[i].1 is Some,
        forall|j: int| i < j < sec.len() ==> sec[j].0 != sec[i].0,
    ensures
        section_aliases(sec).contains_key(sec[i].0),
        section_aliases(sec)[sec[i].0] == sec[i].1->0,
    decreases sec.len(),
{
    if i < sec.len() - 1 {
        let prefix = sec.drop_last();
        assert(prefix[i] == sec[i]);
        assert forall|j: int| i < j < prefix.len() implies prefix[j].0 != prefix[i].0 by {
            assert(prefix[j] == sec[j]);
        }
        lemma_table_entry_is_alias(prefix, i);
    }
}

/// A string entry put anywhere into a table, under a name the table did not
/// have, adds exactly that alias and leaves every other alias as it was.
pub proof fn lemma_section_insert(sec: SectionView, i: int, name: Seq<char>, path: Seq<char>)
    requires
        0 <= i <= sec.len(),
        section_names_distinct(sec.insert(i, (name, Some(path)))),
    ensures
        section_aliases(sec.insert(i, (name, Some(path)))) == section_aliases(sec).insert(name, path),
    decreases sec.len(),
{
    let e = (name, Some(path));
    let t = sec.insert(i, e);
    if i == sec.len() {
        assert(t.drop_last() =~= sec);
    } else {
        let prefix = sec.drop_last();
        assert(t.drop_last() =~= prefix.insert(i, e));
        assert(t.last() == sec.last());
        assert forall|a: int, b: int| 0 <= a < b < t.drop_last().len() implies t.drop_last()[a].0
            != t.drop_last()[b].0 by {
            assert(t.drop_last()[a] == t[a]);
            assert(t.drop_last()[b] == t[b]);
        }
        lemma_section_insert(prefix, i, name, path);
        assert(t[i].0 != t[t.len() - 1].0);
        assert(section_aliases(t) =~= section_aliases(sec).insert(name, path));
    }
}

/// Editing the configuration between two reads shows in the second read: when
/// the `aliases` table of the new text is that of the old text with a string
/// entry put in anywhere under a new name, the aliases read are the old ones
/// plus that entry.
pub proof fn lemma_edited_config_is_reread(
    before: Seq<char>,
    after: Seq<char>,
    i: int,
    name: Seq<char>,
    path: Seq<char>,
)
    requires
        toml_outline(before) matches Some(d1) && entry_named(d1, "aliases"@) matches Some(Some(s1))
            && {
            &&& 0 <= i <= s1.len()
            &&& toml_outline(after) matches Some(d2)
            &&& entry_named(d2, "aliases"@) == Some(Some(s1.insert(i, (name, Some(path)))))
            &&& section_names_distinct(s1.insert(i, (name, Some(path))))
        },
    ensures
        aliases_of(toml_outline(after)->0) == Some(
            aliases_of(toml_outline(before)->0)->0.insert(name, path),
        ),
{
    let s1 = entry_named(toml_outline(before)->0, "aliases"@)->0->0;
    lemma_section_insert(s1, i, name, path);
}

/// The aliases that the default configuration defines for the home directory
/// `home`.
pub open spec fn default_aliases(home: Seq<char>) -> Map<Seq<char>, Seq<char>> {
    let h = forward_slashes(home);
    map![
        "home"@ => h,
        "documents"@ => h + "/Documents"@,
        "downloads"@ => h + "/Downloads"@,
        "desktop"@ => h + "/Desktop"@,
        "pictures"@ => h + "/Pictures"@,
        "music"@ => h + "/Music"@,
        "videos"@ => h + "/Videos"@,
    ]
}

/// A table whose entries, in any order, are exactly the string entries of
/// `default_aliases(home)` gives exactly those aliases: the seven default
/// names, each a directory below the home directory.
pub proof fn lemma_default_table_aliases(sec: SectionView, home: Seq<char>)
    requires
        forall|i: int|
            0 <= i < sec.len() ==> (#[trigger] sec[i]).1 is Some && default_aliases(home).contains_key(
                sec[i].0,
            ) && default_aliases(home)[sec[i].0] == sec[i].1->0,
        forall|k: Seq<char>|
            #[trigger] default_aliases(home).contains_key(k) ==> exists|i: int|
                0 <= i < sec.len() && sec[i].0 == k,
        section_names_distinct(sec),
    ensures
        section_aliases(sec) == default_aliases(home),
{
    let m = default_aliases(home);
    assert forall|k: Seq<char>| section_aliases(sec).contains_key(k) <==> m.contains_key(k) by {
        lemma_section_aliases_domain(sec, k);
    }
    assert forall|k: Seq<char>| #[trigger] section_aliases(sec).contains_key(k) implies section_aliases(
        sec,
    )[k] == m[k] by {
        lemma_section_aliases_domain(sec, k);
        let i = choose|i: int| 0 <= i < sec.len() && sec[i].0 == k && sec[i].1 is Some;
        lemma_table_entry_is_alias(sec, i);
    }
    assert(section_aliases(sec) =~= m);
}

/// `s` with every backslash turned into a forward slash.
pub fn to_forward_slashes(s: &str) -> (r: String)
    ensures
        r@ == forward_slashes(s@),
{
    let n = s.unicode_len();
    let mut r = String::new();
    let mut i: usize = 0;
    while i < n
        invariant
            n == s@.len(),
            i <= n,
            r@ == forward_slashes(s@.subrange(0, i as int)),
        decreases n - i,
    {
        let c = s.get_char(i);
        if c == '\\' {
            proof {
                reveal_strlit("/");
            }
            assert("/"@ =~= seq!['/']);
            r.append("/");
        } else {
            let piece = s.substring_char(i, i + 1);
            assert(piece@ =~= seq![c]);
            r.append(piece);
        }
        assert(forward_slashes(s@.subrange(0, i + 1)) =~= forward_slashes(s@.subrange(0, i as int))
            + seq![if c == '\\' { '/' } else { c }]);
        i += 1;
    }
    assert(s@.subrange(0, n as int) =~= s@);
    r
}

/// The text of the default configuration for the home directory `home`.
pub fn default_config_toml(home: &str) -> (r: String)
    ensures
        r@ == default_config_text(home@),
{
    let h = to_forward_slashes(home);
    let h = h.as_str();
    let mut r = String::from_str("[aliases]\nhome = \"");
    r.append(h);
    r.append("\"\ndocuments = \"");
    r.append(h);
    r.append("/Documents\"\ndownloads = \"");
    r.append(h);
    r.append("/Downloads\"\ndesktop = \"");
    r.append(h);
    r.append("/Desktop\"\npictures = \"");
    r.append(h);
    r.append("/Pictures\"\nmusic = \"");
    r.append(h);
    r.append("/Music\"\nvideos = \"");
    r.append(h);
    r.append("/Videos\"\n");
    r
}

/// Relies on `toml::from_str`, which parses `text` as a TOML document into a
/// `toml::Table`; its entries, and those of each table among them, are only
/// moved into plain vectors.
#[verifier::external_body]
fn parse_outline(text: &str) -> (r: Result<Outline, String>)
    ensures
        r is Ok <==> toml_outline(text@) is Some,
        r is Ok ==> r->Ok_0.deep_view() == toml_outline(text@)->0,
{
    let table: toml::Table = toml::from_str(text).map_err(|e| e.to_string())?;
    Ok(table.into_iter().map(|(k, v)| (k, match v {
        toml::Value::Table(t) => Some(t.into_iter().map(|(n, p)| (n, match p {
            toml::Value::String(s) => Some(s),
            _ => None,
        })).collect()),
        _ => None,
    })).collect())
}

/// The aliases that the table `section` gives: each string-valued entry;
/// entries of other kinds are skipped.
pub fn aliases_from_section(section: &Section) -> (r: AliasMap)
    ensures
        r.wf(),
        r@ == section_aliases(section.deep_view()),
{
    let ghost sv = section.deep_view();
    let mut aliases = AliasMap::new();
    let mut i: usize = 0;
    while i < section.len()
        invariant
            sv == section.deep_view(),
            i <= section@.len(),
            aliases.wf(),
            aliases@ == section_aliases(sv.subrange(0, i as int)),
        decreases section@.len() - i,
    {
        assert(sv.subrange(0, i + 1).drop_last() =~= sv.subrange(0, i as int));
        assert(sv[i as int] == section@[i as int].deep_view());
        match &section[i].1 {
            Some(path) => aliases.insert(section[i].0.clone(), path.clone()),
            None => {},
        }
        i += 1;
    }
    assert(sv.subrange(0, section@.len() as int) =~= sv);
    aliases
}

/// The aliases of a parsed document: those of its `aliases` table, none when
/// it has no `aliases` entry; fails with `ParseError` when that entry is not
/// a table.
pub fn aliases_from_outline(doc: &Outline) -> (r: Result<AliasMap, BrowserError>)
    ensures
        r is Ok <==> aliases_of(doc.deep_view()) is Some,
        r matches Ok(m) ==> m.wf() && m@ == aliases_of(doc.deep_view())->0,
        r matches Err(e) ==> e is ParseError,
{
    let ghost dv = doc.deep_view();
    let name = String::from_str("aliases");
    let mut i: usize = 0;
    assert(dv.subrange(0, dv.len() as int) =~= dv);
    while i < doc.len()
        invariant
            dv == doc.deep_view(),
            name@ == "aliases"@,
            i <= doc@.len(),
            entry_named(dv, name@) == entry_named(dv.subrange(i as int, dv.len() as int), name@),
        decreases doc@.len() - i,
    {
        let ghost rest = dv.subrange(i as int, dv.len() as int);
        assert(rest[0] == doc@[i as int].deep_view());
        assert(rest.drop_first() =~= dv.subrange(i + 1, dv.len() as int));
        if doc[i].0 == name {
            return match &doc[i].1 {
                Some(section) => Ok(aliases_from_section(section)),
                None => Err(BrowserError::ParseError(String::from_str("the aliases entry is not a table"))),
            };
        }
        i += 1;
    }
    Ok(AliasMap::new())
}

/// The aliases that the configuration text `text` defines; fails with
/// `ParseError` exactly when `text` is not a valid document or its `aliases`
/// entry is not a table.
pub fn read_aliases(text: &str) -> (r: Result<AliasMap, BrowserError>)
    ensures
        r is Ok <==> (toml_outline(text@) matches Some(doc) && aliases_of(doc) is Some),
        r matches Ok(m) ==> m.wf() && m@ == aliases_of(toml_outline(text@)->0)->0,
        r matches Err(e) ==> e is ParseError,
{
    match parse_outline(text) {
        Ok(doc) => aliases_from_outline(&doc),
        Err(msg) => Err(BrowserError::ParseError(msg)),
    }
}

/// What to do with the configuration file before reading it.
#[derive(Clone, Copy, Debug, PartialEq, Eq, Structural)]
pub enum ConfigStep {
    /// The file is missing: write the default configuration, then read it.
    WriteDefaultThenRead,
    /// The file is there: only read it, leaving it untouched.
    ReadOnly,
}

/// The step to take given whether the configuration file exists; an existing
/// file is never rewritten.
pub fn plan_config(exists: bool) -> (r: ConfigStep)
    ensures
        r == (if exists { ConfigStep::ReadOnly } else { ConfigStep::WriteDefaultThenRead }),
{
    if exists {
        ConfigStep::ReadOnly
    } else {
        ConfigStep::WriteDefaultThenRead
    }
}

} // verus!
