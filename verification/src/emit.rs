//! Asset versioning and emission planning: compare each generated asset's
//! content version against the version recorded at the last successful
//! emission, and plan only the writes and removals that are due. Unchanged
//! assets are skipped entirely: no write, no emission notification.
//!
//! The output-storage collaborator performs the planned operations; the
//! plan itself is pure data.

use vstd::prelude::*;

verus! {

/// One generated output: its content (absent for an asset with no source)
/// and its content version, the identity emission compares.
#[derive(Debug)]
pub struct CompilationAsset {
    pub source: Option<String>,
    pub version: String,
}

impl CompilationAsset {
    pub fn new(source: Option<String>, version: String) -> (r: CompilationAsset)
        ensures
            r.source == source,
            r.version == version,
    {
        CompilationAsset { source, version }
    }

    pub fn get_source(&self) -> (r: Option<&String>)
        ensures
            r is Some <==> self.source is Some,
            r matches Some(s) ==> s@ == self.source->0@,
    {
        self.source.as_ref()
    }
}

/// The version recorded for a filename: the first match in the table.
/// Filenames are unique in a baseline the library itself records (one entry
/// per asset); should a caller hand in duplicate keys, the first entry
/// wins.
pub open spec fn version_of(table: Seq<(String, String)>, filename: Seq<char>) -> Option<Seq<char>>
    decreases table.len(),
{
    if table.len() == 0 {
        None
    } else if table[0].0@ == filename {
        Some(table[0].1@)
    } else {
        version_of(table.drop_first(), filename)
    }
}

/// Some asset carries this filename.
pub open spec fn asset_named(assets: Seq<(String, CompilationAsset)>, filename: Seq<char>) -> bool {
    exists|i: int| 0 <= i < assets.len() && (#[trigger] assets[i]).0@ == filename
}

/// Position of the first `?` in `s`, or the length when there is none.
pub open spec fn first_query_at(s: Seq<char>, i: int) -> int
    decreases s.len() - i,
{
    if i < 0 || i >= s.len() {
        s.len() as int
    } else if s[i] == '?' {
        i
    } else {
        first_query_at(s, i + 1)
    }
}

/// The on-disk filename of an asset: everything before the first `?`.
pub open spec fn strip_query(s: Seq<char>) -> Seq<char> {
    s.subrange(0, first_query_at(s, 0))
}

/// A write is due for an asset when it has content and its version differs
/// from the recorded baseline, the baseline is absent, or the baseline is
/// empty.
pub open spec fn write_due(table: Seq<(String, String)>, filename: Seq<char>, asset: CompilationAsset) -> bool {
    asset.source is Some && (match version_of(table, filename) {
        Some(old_version) => !(old_version == asset.version@ && old_version.len() > 0),
        None => true,
    })
}

/// The planned writes: for each asset with a due write, in asset order, the
/// query-stripped target filename and the content.
pub open spec fn writes_spec(
    table: Seq<(String, String)>,
    assets: Seq<(String, CompilationAsset)>,
) -> Seq<(Seq<char>, Seq<char>)>
    decreases assets.len(),
{
    if assets.len() == 0 {
        Seq::empty()
    } else {
        writes_spec(table, assets.drop_last()) + (if write_due(
            table,
            assets.last().0@,
            assets.last().1,
        ) {
            seq![(strip_query(assets.last().0@), assets.last().1.source->0@)]
        } else {
            Seq::empty()
        })
    }
}

/// The planned removals under output cleaning with an existing baseline:
/// every baseline filename absent from the new asset set, in table order.
pub open spec fn removals_spec(
    table: Seq<(String, String)>,
    assets: Seq<(String, CompilationAsset)>,
) -> Seq<Seq<char>>
    decreases table.len(),
{
    if table.len() == 0 {
        Seq::empty()
    } else {
        removals_spec(table.drop_last(), assets) + (if !asset_named(assets, table.last().0@) {
            seq![table.last().0@]
        } else {
            Seq::empty()
        })
    }
}

/// The next baseline: every asset's filename and version, in asset order.
pub open spec fn versions_spec(assets: Seq<(String, CompilationAsset)>) -> Seq<
    (Seq<char>, Seq<char>),
>
    decreases assets.len(),
{
    if assets.len() == 0 {
        Seq::empty()
    } else {
        versions_spec(assets.drop_last()) + seq![
            (assets.last().0@, assets.last().1.version@),
        ]
    }
}

/// The filename/version views of a version table.
pub open spec fn table_views(table: Seq<(String, String)>) -> Seq<(Seq<char>, Seq<char>)> {
    table.map_values(|p: (String, String)| (p.0@, p.1@))
}

/// The filename/content views of a write list.
pub open spec fn write_views(writes: Seq<(String, String)>) -> Seq<(Seq<char>, Seq<char>)> {
    writes.map_values(|p: (String, String)| (p.0@, p.1@))
}

/// The views of a filename list.
pub open spec fn name_views(names: Seq<String>) -> Seq<Seq<char>> {
    names.map_values(|s: String| s@)
}

/// What one emission performs: whether the whole output directory is
/// removed first (output cleaning without a prior baseline), the stale
/// files removed individually (cleaning with a baseline), the files
/// written, and the baseline recorded for the next build.
#[derive(Debug)]
pub struct EmissionPlan {
    pub remove_entire_output: bool,
    pub removals: Vec<String>,
    pub writes: Vec<(String, String)>,
    pub new_versions: Vec<(String, String)>,
}

/// Strip the query part of an asset filename.
pub fn strip_query_exec(filename: &String) -> (r: String)
    ensures
        r@ == strip_query(filename@),
{
    let s = filename.as_str();
    let n = s.unicode_len();
    let mut i: usize = 0;
    while i < n
        invariant
            i <= n,
            n == s@.len(),
            s@ == filename@,
            first_query_at(s@, 0) == first_query_at(s@, i as int),
        decreases n - i,
    {
        let c = s.get_char(i);
        if c == '?' {
            assert(first_query_at(s@, i as int) == i as int);
            let prefix = s.substring_char(0, i);
            return prefix.to_owned();
        }
        i = i + 1;
    }
    proof {
        assert(first_query_at(s@, i as int) == s@.len());
        assert(strip_query(filename@) =~= filename@);
    }
    filename.clone()
}

/// Look up the recorded version of a filename.
fn lookup_version<'a>(table: &'a Vec<(String, String)>, filename: &String) -> (r: Option<
    &'a String,
>)
    ensures
        r is Some <==> version_of(table@, filename@) is Some,
        r matches Some(v) ==> version_of(table@, filename@) == Some(v@),
{
    let ghost t = table@;
    let mut i: usize = 0;
    proof {
        assert(t.skip(0) =~= t);
    }
    while i < table.len()
        invariant
            i <= t.len(),
            t == table@,
            version_of(t, filename@) == version_of(t.skip(i as int), filename@),
        decreases t.len() - i,
    {
        proof {
            assert(t.skip(i as int)[0] == t[i as int]);
            assert(t.skip(i as int).drop_first() =~= t.skip(i as int + 1));
        }
        if table[i].0.eq(filename) {
            return Some(&table[i].1);
        }
        i = i + 1;
    }
    proof {
        assert(t.skip(i as int).len() == 0);
    }
    None
}

/// Whether the asset set names a file.
fn has_asset(assets: &Vec<(String, CompilationAsset)>, filename: &String) -> (r: bool)
    ensures
        r == asset_named(assets@, filename@),
{
    let mut i: usize = 0;
    while i < assets.len()
        invariant
            i <= assets@.len(),
            forall|j: int| 0 <= j < i ==> (#[trigger] assets@[j]).0@ != filename@,
        decreases assets@.len() - i,
    {
        if assets[i].0.eq(filename) {
            assert(assets@[i as int].0@ == filename@);
            return true;
        }
        i = i + 1;
    }
    false
}

/// Plan one emission against the recorded baseline.
///
/// When cleaning is requested and no baseline exists (a first or clean
/// build), the entire output directory is removed; with a baseline, only
/// files absent from the new asset set are removed individually. An asset
/// is written exactly when it has content and its version is new, changed,
/// or recorded as empty; unchanged assets are skipped. The new baseline
/// records every asset's version, so it reflects exactly this emission.
pub fn plan_emission(
    clean: bool,
    table: &Vec<(String, String)>,
    assets: &Vec<(String, CompilationAsset)>,
) -> (r: EmissionPlan)
    ensures
        r.remove_entire_output == (clean && table@.len() == 0),
        clean && table@.len() > 0 ==> name_views(r.removals@) == removals_spec(table@, assets@),
        !(clean && table@.len() > 0) ==> r.removals@.len() == 0,
        write_views(r.writes@) == writes_spec(table@, assets@),
        table_views(r.new_versions@) == versions_spec(assets@),
{
    let remove_entire_output = clean && table.len() == 0;
    let mut removals: Vec<String> = Vec::new();
    if clean && table.len() > 0 {
        let n = table.len();
        let mut i: usize = 0;
        proof {
            assert(table@.subrange(0, 0) =~= Seq::<(String, String)>::empty());
            assert(name_views(removals@) =~= removals_spec(table@.subrange(0, 0), assets@));
        }
        while i < n
            invariant
                i <= n,
                n == table@.len(),
                name_views(removals@) == removals_spec(table@.subrange(0, i as int), assets@),
            decreases n - i,
        {
            proof {
                assert(table@.subrange(0, i as int + 1).drop_last() =~= table@.subrange(
                    0,
                    i as int,
                ));
                assert(table@.subrange(0, i as int + 1).last() == table@[i as int]);
            }
            if !has_asset(assets, &table[i].0) {
                removals.push(table[i].0.clone());
            }
            proof {
                assert(name_views(removals@) =~= removals_spec(
                    table@.subrange(0, i as int + 1),
                    assets@,
                ));
            }
            i = i + 1;
        }
        proof {
            assert(table@.subrange(0, n as int) =~= table@);
        }
    }
    let mut writes: Vec<(String, String)> = Vec::new();
    let n_assets = assets.len();
    let mut i: usize = 0;
    proof {
        assert(assets@.subrange(0, 0) =~= Seq::<(String, CompilationAsset)>::empty());
        assert(write_views(writes@) =~= writes_spec(table@, assets@.subrange(0, 0)));
    }
    while i < n_assets
        invariant
            i <= n_assets,
            n_assets == assets@.len(),
            write_views(writes@) == writes_spec(table@, assets@.subrange(0, i as int)),
        decreases n_assets - i,
    {
        proof {
            assert(assets@.subrange(0, i as int + 1).drop_last() =~= assets@.subrange(0, i as int));
            assert(assets@.subrange(0, i as int + 1).last() == assets@[i as int]);
        }
        let filename = &assets[i].0;
        let asset = &assets[i].1;
        let due: bool = match asset.get_source() {
            None => false,
            Some(_) => {
                match lookup_version(table, filename) {
                    Some(old_version) => !(old_version.eq(&asset.version)
                        && old_version.as_str().unicode_len() > 0),
                    None => true,
                }
            },
        };
        assert(due == write_due(table@, assets@[i as int].0@, assets@[i as int].1));
        if due {
            let target = strip_query_exec(filename);
            let content = match asset.get_source() {
                Some(s) => s.clone(),
                None => String::new(),
            };
            writes.push((target, content));
        }
        proof {
            assert(write_views(writes@) =~= writes_spec(table@, assets@.subrange(0, i as int + 1)));
        }
        i = i + 1;
    }
    proof {
        assert(assets@.subrange(0, n_assets as int) =~= assets@);
    }
    let mut new_versions: Vec<(String, String)> = Vec::new();
    let mut i: usize = 0;
    proof {
        assert(assets@.subrange(0, 0) =~= Seq::<(String, CompilationAsset)>::empty());
        assert(table_views(new_versions@) =~= versions_spec(assets@.subrange(0, 0)));
    }
    while i < n_assets
        invariant
            i <= n_assets,
            n_assets == assets@.len(),
            table_views(new_versions@) == versions_spec(assets@.subrange(0, i as int)),
        decreases n_assets - i,
    {
        proof {
            assert(assets@.subrange(0, i as int + 1).drop_last() =~= assets@.subrange(
                0,
                i as int,
            ));
            assert(assets@.subrange(0, i as int + 1).last() == assets@[i as int]);
        }
        new_versions.push((assets[i].0.clone(), assets[i].1.version.clone()));
        proof {
            assert(table_views(new_versions@) =~= versions_spec(
                assets@.subrange(0, i as int + 1),
            ));
        }
        i = i + 1;
    }
    proof {
        assert(assets@.subrange(0, n_assets as int) =~= assets@);
    }
    EmissionPlan { remove_entire_output, removals, writes, new_versions }
}

/// Emission skip: each asset contributes exactly one write when its content
/// is present and its version is new, changed, or recorded as empty, and no
/// write otherwise. An asset whose version matches a nonempty baseline is
/// skipped entirely.
pub proof fn lemma_emission_skip(
    table: Seq<(String, String)>,
    assets: Seq<(String, CompilationAsset)>,
    i: int,
)
    requires
        0 <= i < assets.len(),
    ensures
        writes_spec(table, assets.subrange(0, i + 1)).len() == writes_spec(
            table,
            assets.subrange(0, i),
        ).len() + (if write_due(table, assets[i].0@, assets[i].1) {
            1int
        } else {
            0int
        }),
{
    assert(assets.subrange(0, i + 1).drop_last() =~= assets.subrange(0, i));
    assert(assets.subrange(0, i + 1).last() == assets[i]);
}

} // verus!
