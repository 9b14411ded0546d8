//! Combining the local installed-title list with the remote tree listing:
//! for each installed title, the remote entries that belong to it and whose
//! declared version its installed update accepts become download entries,
//! and the title becomes a [`Game`]. A title the remote listing has no
//! content for at all is dropped from the output entirely.

use vstd::prelude::*;
use crate::game::{Game, GameView, ModDownloadEntry, ModDownloadEntryView};
use crate::path_meta::{
    has_segments, parse_mod_path, parsed_relative_path, parsed_title_id, parsed_title_name,
    parsed_version, ParsedModPath,
};
use crate::text::{contains_seq, join_slash, join_slash_view, str_contains, str_eq};
use crate::tree::TreeEntry;
use crate::version::{version_accepted, version_matches};

verus! {

/// One locally installed title, as the local install enumeration and the
/// per-title version lookup hand it in: the identifier of its install
/// directory and the detected installed update version, `None` where no
/// update is installed.
pub struct InstalledTitle {
    pub title_id: String,
    pub title_version: Option<String>,
}

/// The path runs through one of the recognized mod-type sub-directories.
pub open spec fn in_mod_subdir(p: Seq<char>) -> bool {
    contains_seq(p, "/exefs/"@) || contains_seq(p, "/romfs/"@) || contains_seq(p, "/cheats/"@)
}

/// An entry the resolver considers at all: a file (`blob`) under a
/// recognized mod-type sub-directory.
pub open spec fn relevant_entry(e: TreeEntry) -> bool {
    e.type_field@ == "blob"@ && in_mod_subdir(e.path@)
}

/// Every entry the resolver will parse has the five segments the parser
/// needs. A listing that breaks this must never reach the resolver: the
/// mod-type pre-filter is the caller-visible precondition of the parser.
pub open spec fn listing_parseable(tree: Seq<TreeEntry>) -> bool {
    forall|k: int|
        0 <= k < tree.len() && relevant_entry(#[trigger] tree[k]) ==> has_segments(
            tree[k].path@,
            5,
        )
}

/// The raw-content URL for one repository file: the fixed URL template with
/// the repository identity and the fixed branch reference substituted.
pub open spec fn download_url_view(repo: Seq<char>, path: Seq<char>) -> Seq<char> {
    "https://raw.githubusercontent.com/"@ + repo + "/refs/heads/master/"@ + path
}

pub fn build_download_url(repository: &str, path: &str) -> (r: String)
    ensures
        r@ == download_url_view(repository@, path@),
{
    let mut s = "https://raw.githubusercontent.com/".to_owned();
    s.append(repository);
    s.append("/refs/heads/master/");
    s.append(path);
    proof {
        assert(s@ =~= download_url_view(repository@, path@));
    }
    s
}

/// The entry belongs to the title `tid`: it is relevant and its parsed,
/// bracket-stripped title id equals `tid`.
pub open spec fn entry_matches(e: TreeEntry, tid: Seq<char>) -> bool {
    relevant_entry(e) && parsed_title_id(e.path@) == tid
}

/// The download entries the title `tid` gets from `tree`, in listing order:
/// one per matching entry whose declared version is accepted for the
/// installed version `installed`.
pub open spec fn entries_for(
    repo: Seq<char>,
    tree: Seq<TreeEntry>,
    tid: Seq<char>,
    installed: Option<Seq<char>>,
) -> Seq<ModDownloadEntryView>
    decreases tree.len(),
{
    if tree.len() == 0 {
        Seq::empty()
    } else {
        let prefix = entries_for(repo, tree.drop_last(), tid, installed);
        let e = tree.last();
        if entry_matches(e, tid) && version_accepted(installed, parsed_version(e.path@)) {
            prefix.push(
                ModDownloadEntryView {
                    download_url: download_url_view(repo, e.path@),
                    mod_relative_path: parsed_relative_path(e.path@),
                },
            )
        } else {
            prefix
        }
    }
}

/// The display name the title `tid` gets from `tree`: the first non-empty
/// parsed title name among the matching entries, in listing order. Later
/// entries' names are ignored even where they differ (first-seen wins).
/// `None` where no matching entry carries a non-empty name: the remote
/// source has no content at all for this title.
pub open spec fn name_for(tree: Seq<TreeEntry>, tid: Seq<char>) -> Option<Seq<char>>
    decreases tree.len(),
{
    if tree.len() == 0 {
        None
    } else if entry_matches(tree.first(), tid) && parsed_title_name(tree.first().path@).len()
        > 0 {
        Some(parsed_title_name(tree.first().path@))
    } else {
        name_for(tree.drop_first(), tid)
    }
}

/// The resolved record for one installed title, or `None` where the remote
/// listing has no content at all for it — distinct from "has content, but
/// none match the version", which yields a record with no download entries.
pub open spec fn game_for(
    repo: Seq<char>,
    load_dir: Seq<char>,
    t: InstalledTitle,
    tree: Seq<TreeEntry>,
) -> Option<GameView> {
    match name_for(tree, t.title_id@) {
        None => None,
        Some(name) => Some(
            GameView {
                title_id: t.title_id@,
                title_name: name,
                title_version: t.title_version.deep_view(),
                mod_data_location: join_slash_view(load_dir, t.title_id@),
                mod_download_entries: entries_for(
                    repo,
                    tree,
                    t.title_id@,
                    t.title_version.deep_view(),
                ),
            },
        ),
    }
}

/// All resolved games: one per installed title the remote listing has
/// content for, in the order the titles were given.
pub open spec fn resolved_games(
    repo: Seq<char>,
    load_dir: Seq<char>,
    installed: Seq<InstalledTitle>,
    tree: Seq<TreeEntry>,
) -> Seq<GameView>
    decreases installed.len(),
{
    if installed.len() == 0 {
        Seq::empty()
    } else {
        let prefix = resolved_games(repo, load_dir, installed.drop_last(), tree);
        match game_for(repo, load_dir, installed.last(), tree) {
            Some(g) => prefix.push(g),
            None => prefix,
        }
    }
}

proof fn lemma_name_for_absent(tree: Seq<TreeEntry>, tid: Seq<char>)
    requires
        forall|k: int| 0 <= k < tree.len() ==> !entry_matches(#[trigger] tree[k], tid),
    ensures
        name_for(tree, tid) is None,
    decreases tree.len(),
{
    if tree.len() > 0 {
        assert(!entry_matches(tree[0], tid));
        assert forall|k: int|
            0 <= k < tree.drop_first().len() implies !entry_matches(
            #[trigger] tree.drop_first()[k],
            tid,
        ) by {
            assert(tree.drop_first()[k] == tree[k + 1]);
        }
        lemma_name_for_absent(tree.drop_first(), tid);
    }
}

/// A locally installed title absent from the remote listing entirely —
/// no entry of the tree belongs to it — never appears in the output.
pub proof fn lemma_absent_title_never_appears(
    repo: Seq<char>,
    load_dir: Seq<char>,
    installed: Seq<InstalledTitle>,
    tree: Seq<TreeEntry>,
    tid: Seq<char>,
)
    requires
        forall|k: int| 0 <= k < tree.len() ==> !entry_matches(#[trigger] tree[k], tid),
    ensures
        forall|g: GameView|
            resolved_games(repo, load_dir, installed, tree).contains(g) ==> g.title_id != tid,
    decreases installed.len(),
{
    if installed.len() > 0 {
        lemma_absent_title_never_appears(repo, load_dir, installed.drop_last(), tree, tid);
        let prefix = resolved_games(repo, load_dir, installed.drop_last(), tree);
        let full = resolved_games(repo, load_dir, installed, tree);
        let t = installed.last();
        match game_for(repo, load_dir, t, tree) {
            Some(g) => {
                if t.title_id@ == tid {
                    lemma_name_for_absent(tree, tid);
                    assert(false);
                }
                assert forall|g2: GameView| full.contains(g2) implies g2.title_id != tid by {
                    let idx = choose|idx: int| 0 <= idx < full.len() && full[idx] == g2;
                    if idx < prefix.len() {
                        assert(prefix.contains(g2));
                    } else {
                        assert(g2 == g);
                    }
                }
            },
            None => {},
        }
    }
}

proof fn lemma_name_for_present(tree: Seq<TreeEntry>, tid: Seq<char>)
    requires
        exists|k: int|
            0 <= k < tree.len() && entry_matches(#[trigger] tree[k], tid) && parsed_title_name(
                tree[k].path@,
            ).len() > 0,
    ensures
        name_for(tree, tid) is Some,
    decreases tree.len(),
{
    let k = choose|k: int|
        0 <= k < tree.len() && entry_matches(#[trigger] tree[k], tid) && parsed_title_name(
            tree[k].path@,
        ).len() > 0;
    if !(entry_matches(tree.first(), tid) && parsed_title_name(tree.first().path@).len() > 0) {
        assert(k >= 1);
        assert(tree.drop_first()[k - 1] == tree[k]);
        lemma_name_for_present(tree.drop_first(), tid);
    }
}

proof fn lemma_entries_for_empty(
    repo: Seq<char>,
    tree: Seq<TreeEntry>,
    tid: Seq<char>,
    installed: Option<Seq<char>>,
)
    requires
        forall|k: int|
            0 <= k < tree.len() && entry_matches(#[trigger] tree[k], tid) ==> !version_accepted(
                installed,
                parsed_version(tree[k].path@),
            ),
    ensures
        entries_for(repo, tree, tid, installed).len() == 0,
    decreases tree.len(),
{
    if tree.len() > 0 {
        assert forall|k: int|
            0 <= k < tree.drop_last().len() && entry_matches(
                #[trigger] tree.drop_last()[k],
                tid,
            ) implies !version_accepted(
            installed,
            parsed_version(tree.drop_last()[k].path@),
        ) by {
            assert(tree.drop_last()[k] == tree[k]);
        }
        lemma_entries_for_empty(repo, tree.drop_last(), tid, installed);
    }
}

/// A title the listing does have content for, but none of it with an
/// accepted version, still appears — with no download entries. "Remote
/// source has no content at all" and "has content, but none match the
/// version" stay distinct.
pub proof fn lemma_version_mismatch_keeps_title(
    repo: Seq<char>,
    load_dir: Seq<char>,
    t: InstalledTitle,
    tree: Seq<TreeEntry>,
)
    requires
        exists|k: int|
            0 <= k < tree.len() && entry_matches(#[trigger] tree[k], t.title_id@)
                && parsed_title_name(tree[k].path@).len() > 0,
        forall|k: int|
            0 <= k < tree.len() && entry_matches(#[trigger] tree[k], t.title_id@)
                ==> !version_accepted(
                t.title_version.deep_view(),
                parsed_version(tree[k].path@),
            ),
    ensures
        game_for(repo, load_dir, t, tree) is Some,
        game_for(repo, load_dir, t, tree)->Some_0.mod_download_entries.len() == 0,
{
    lemma_name_for_present(tree, t.title_id@);
    lemma_entries_for_empty(repo, tree, t.title_id@, t.title_version.deep_view());
}

/// The games of `games` that carry at least one download entry, in order.
pub open spec fn games_with_entries_view(games: Seq<GameView>) -> Seq<GameView>
    decreases games.len(),
{
    if games.len() == 0 {
        Seq::empty()
    } else {
        let prefix = games_with_entries_view(games.drop_last());
        if games.last().mod_download_entries.len() > 0 {
            prefix.push(games.last())
        } else {
            prefix
        }
    }
}

/// Keeps the games that carry at least one download entry: how the caller
/// filters out the titles the listing has content for but none matching
/// their installed version.
pub fn filter_games_with_entries(games: Vec<Game>) -> (kept: Vec<Game>)
    ensures
        kept.deep_view() == games_with_entries_view(games.deep_view()),
{
    let ghost dv = games.deep_view();
    let mut rest = games;
    let mut kept: Vec<Game> = Vec::new();
    let ghost mut i: int = 0;
    proof {
        assert(dv.take(0) =~= Seq::<GameView>::empty());
        assert(kept.deep_view() =~= games_with_entries_view(dv.take(0)));
        assert(rest.deep_view() =~= dv.skip(0));
    }
    while rest.len() > 0
        invariant
            0 <= i <= dv.len(),
            rest.deep_view() == dv.skip(i),
            rest@.len() == dv.len() - i,
            kept.deep_view() == games_with_entries_view(dv.take(i)),
        decreases rest@.len(),
    {
        let ghost old_rest = rest@;
        let ghost old_rest_dv = rest.deep_view();
        let g = rest.remove(0);
        let ghost g_v = g.deep_view();
        proof {
            assert(g_v == old_rest_dv[0]);
            assert(g_v == dv[i]);
            assert forall|k: int| 0 <= k < rest@.len() implies rest.deep_view()[k] == dv.skip(
                i + 1,
            )[k] by {
                assert(rest@[k] == old_rest[k + 1]);
                assert(rest.deep_view()[k] == rest@[k].deep_view());
                assert(old_rest_dv[k + 1] == old_rest[k + 1].deep_view());
                assert(dv.skip(i)[k + 1] == dv[i + 1 + k]);
                assert(dv.skip(i + 1)[k] == dv[i + 1 + k]);
            }
            assert(rest.deep_view() =~= dv.skip(i + 1));
            assert(dv.take(i + 1).drop_last() =~= dv.take(i));
            assert(dv.take(i + 1).last() == dv[i]);
        }
        if g.mod_download_entries.len() > 0 {
            let ghost old_kept = kept.deep_view();
            kept.push(g);
            proof {
                assert(kept.deep_view() =~= old_kept.push(g_v));
            }
        }
        proof {
            i = i + 1;
        }
    }
    proof {
        assert(dv.take(dv.len() as int) =~= dv);
    }
    kept
}

/// Resolves one installed title against the remote listing.
pub fn resolve_title(
    repository: &str,
    load_directory: &str,
    title: &InstalledTitle,
    tree: &Vec<TreeEntry>,
) -> (r: Option<Game>)
    requires
        listing_parseable(tree@),
    ensures
        match r {
            Some(g) => game_for(repository@, load_directory@, *title, tree@) == Some(
                g.deep_view(),
            ),
            None => game_for(repository@, load_directory@, *title, tree@) is None,
        },
{
    let ghost iv = title.title_version.deep_view();
    let ghost tid = title.title_id@;
    let mut title_name: Option<String> = None;
    let mut entries: Vec<ModDownloadEntry> = Vec::new();
    let mut j: usize = 0;
    proof {
        assert(tree@.take(0) =~= Seq::<TreeEntry>::empty());
        assert(tree@.skip(0) =~= tree@);
        assert(entries.deep_view() =~= entries_for(repository@, tree@.take(0), tid, iv));
    }
    while j < tree.len()
        invariant
            0 <= j <= tree@.len(),
            listing_parseable(tree@),
            tid == title.title_id@,
            iv == title.title_version.deep_view(),
            entries.deep_view() == entries_for(repository@, tree@.take(j as int), tid, iv),
            match title_name {
                Some(n) => name_for(tree@, tid) == Some(n@),
                None => name_for(tree@, tid) == name_for(tree@.skip(j as int), tid),
            },
        decreases tree@.len() - j,
    {
        let e = &tree[j];
        proof {
            assert(tree@.take(j + 1).drop_last() =~= tree@.take(j as int));
            assert(tree@.take(j + 1).last() == tree@[j as int]);
            assert(tree@.skip(j as int).drop_first() =~= tree@.skip(j + 1));
            assert(tree@.skip(j as int).first() == tree@[j as int]);
        }
        let is_blob = str_eq(e.type_field.as_str(), "blob");
        let in_subdir = is_blob && (str_contains(e.path.as_str(), "/exefs/") || str_contains(
            e.path.as_str(),
            "/romfs/",
        ) || str_contains(e.path.as_str(), "/cheats/"));
        if in_subdir {
            proof {
                assert(relevant_entry(tree@[j as int]));
            }
            let parsed: ParsedModPath = parse_mod_path(e.path.as_str());
            let ParsedModPath { title_name: p_name, title_id: p_id, title_version: p_version, relative_path: p_rel } =
                parsed;
            if str_eq(p_id.as_str(), title.title_id.as_str()) {
                proof {
                    assert(entry_matches(tree@[j as int], tid));
                }
                if title_name.is_none() && p_name.unicode_len() > 0 {
                    title_name = Some(p_name);
                }
                if version_matches(&title.title_version, p_version.as_str()) {
                    let url = build_download_url(repository, e.path.as_str());
                    let entry = ModDownloadEntry { download_url: url, mod_relative_path: p_rel };
                    let ghost old_entries = entries.deep_view();
                    let ghost entry_v = entry@;
                    entries.push(entry);
                    proof {
                        assert(entries.deep_view() =~= old_entries.push(entry_v));
                    }
                }
            } else {
                proof {
                    assert(!entry_matches(tree@[j as int], tid));
                }
            }
        } else {
            proof {
                assert(!relevant_entry(tree@[j as int]));
            }
        }
        j = j + 1;
    }
    proof {
        assert(tree@.take(tree@.len() as int) =~= tree@);
        assert(tree@.skip(tree@.len() as int) =~= Seq::<TreeEntry>::empty());
    }
    match title_name {
        None => None,
        Some(name) => {
            let location = join_slash(load_directory, title.title_id.as_str());
            let installed_version: Option<String> = match &title.title_version {
                Some(v) => Some(v.clone()),
                None => None,
            };
            let g = Game {
                title_id: title.title_id.clone(),
                title_name: name,
                title_version: installed_version,
                mod_data_location: location,
                mod_download_entries: entries,
            };
            proof {
                assert(g.deep_view() =~= game_for(
                    repository@,
                    load_directory@,
                    *title,
                    tree@,
                )->Some_0);
            }
            Some(g)
        },
    }
}

/// Resolves every installed title against the remote listing: the core of
/// the run, a pure transformation over the provided inputs.
pub fn resolve_games(
    repository: &str,
    load_directory: &str,
    installed: &Vec<InstalledTitle>,
    tree: &Vec<TreeEntry>,
) -> (games: Vec<Game>)
    requires
        listing_parseable(tree@),
    ensures
        games.deep_view() == resolved_games(repository@, load_directory@, installed@, tree@),
{
    let mut games: Vec<Game> = Vec::new();
    let mut i: usize = 0;
    proof {
        assert(installed@.take(0) =~= Seq::<InstalledTitle>::empty());
        assert(games.deep_view() =~= resolved_games(
            repository@,
            load_directory@,
            installed@.take(0),
            tree@,
        ));
    }
    while i < installed.len()
        invariant
            0 <= i <= installed@.len(),
            listing_parseable(tree@),
            games.deep_view() == resolved_games(
                repository@,
                load_directory@,
                installed@.take(i as int),
                tree@,
            ),
        decreases installed@.len() - i,
    {
        let t = &installed[i];
        let resolved = resolve_title(repository, load_directory, t, tree);
        proof {
            assert(installed@.take(i + 1).drop_last() =~= installed@.take(i as int));
            assert(installed@.take(i + 1).last() == installed@[i as int]);
        }
        match resolved {
            Some(g) => {
                let ghost old_games = games.deep_view();
                let ghost g_v = g.deep_view();
                games.push(g);
                proof {
                    assert(games.deep_view() =~= old_games.push(g_v));
                }
            },
            None => {},
        }
        i = i + 1;
    }
    proof {
        assert(installed@.take(installed@.len() as int) =~= installed@);
    }
    games
}

} // verus!
