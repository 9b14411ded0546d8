//! Flattening resolved games into an unordered list of download jobs, one
//! per download entry, each carrying the URL to fetch and the absolute
//! destination path. The planner performs no work itself and deduplicates
//! nothing: where two entries resolve to the same destination, both jobs
//! run and the second write wins.

use vstd::prelude::*;
use crate::game::{Game, GameView, ModDownloadEntryView};
use crate::text::{join_slash, join_slash_view};

verus! {

/// One unit of retrieval work: fetch `source_url`, land the bytes at
/// `destination_path`. No ordering is required between jobs.
pub struct DownloadJob {
    pub source_url: String,
    pub destination_path: String,
}

/// The mathematical value of a [`DownloadJob`].
#[verifier::ext_equal]
pub struct DownloadJobView {
    pub source_url: Seq<char>,
    pub destination_path: Seq<char>,
}

impl View for DownloadJob {
    type V = DownloadJobView;

    open spec fn view(&self) -> DownloadJobView {
        DownloadJobView {
            source_url: self.source_url@,
            destination_path: self.destination_path@,
        }
    }
}

impl DeepView for DownloadJob {
    type V = DownloadJobView;

    open spec fn deep_view(&self) -> DownloadJobView {
        self.view()
    }
}

/// The jobs one game contributes: one per download entry, in order, with
/// the destination the game's data location joined with the entry's
/// relative path.
pub open spec fn game_jobs(g: GameView) -> Seq<DownloadJobView> {
    g.mod_download_entries.map_values(
        |e: ModDownloadEntryView|
            DownloadJobView {
                source_url: e.download_url,
                destination_path: join_slash_view(g.mod_data_location, e.mod_relative_path),
            },
    )
}

/// The whole plan: every game's jobs, games in the given order.
pub open spec fn planned_jobs(games: Seq<GameView>) -> Seq<DownloadJobView>
    decreases games.len(),
{
    if games.len() == 0 {
        Seq::empty()
    } else {
        planned_jobs(games.drop_last()) + game_jobs(games.last())
    }
}

/// The sum of the games' download-entry counts.
pub open spec fn total_entry_count(games: Seq<GameView>) -> nat
    decreases games.len(),
{
    if games.len() == 0 {
        0
    } else {
        total_entry_count(games.drop_last()) + games.last().mod_download_entries.len()
    }
}

/// The number of planned jobs equals the sum of the games' download-entry
/// counts.
pub proof fn lemma_job_count(games: Seq<GameView>)
    ensures
        planned_jobs(games).len() == total_entry_count(games),
    decreases games.len(),
{
    if games.len() > 0 {
        lemma_job_count(games.drop_last());
    }
}

/// Each planned job of one game carries that entry's URL unchanged and a
/// destination of exactly the game's data location joined with the entry's
/// relative path.
pub proof fn lemma_game_job_fields(g: GameView, k: int)
    requires
        0 <= k < g.mod_download_entries.len(),
    ensures
        game_jobs(g).len() == g.mod_download_entries.len(),
        game_jobs(g)[k].source_url == g.mod_download_entries[k].download_url,
        game_jobs(g)[k].destination_path == join_slash_view(
            g.mod_data_location,
            g.mod_download_entries[k].mod_relative_path,
        ),
{
}

/// Flattens the games' download entries into the run's job list.
pub fn plan_downloads(games: &Vec<Game>) -> (jobs: Vec<DownloadJob>)
    ensures
        jobs.deep_view() == planned_jobs(games.deep_view()),
{
    let mut jobs: Vec<DownloadJob> = Vec::new();
    let mut i: usize = 0;
    proof {
        assert(games.deep_view().take(0) =~= Seq::<GameView>::empty());
        assert(jobs.deep_view() =~= planned_jobs(games.deep_view().take(0)));
    }
    while i < games.len()
        invariant
            0 <= i <= games@.len(),
            games.deep_view().len() == games@.len(),
            jobs.deep_view() == planned_jobs(games.deep_view().take(i as int)),
        decreases games@.len() - i,
    {
        let g = &games[i];
        let ghost gv = games.deep_view()[i as int];
        proof {
            assert(gv == g.deep_view());
        }
        let mut k: usize = 0;
        proof {
            assert(game_jobs(gv).take(0) =~= Seq::<DownloadJobView>::empty());
            assert(jobs.deep_view() + game_jobs(gv).take(0) =~= jobs.deep_view());
        }
        let ghost jobs_before = jobs.deep_view();
        while k < g.mod_download_entries.len()
            invariant
                0 <= k <= g.mod_download_entries@.len(),
                gv == g.deep_view(),
                jobs.deep_view() == jobs_before + game_jobs(gv).take(k as int),
            decreases g.mod_download_entries@.len() - k,
        {
            let entry = &g.mod_download_entries[k];
            let destination = join_slash(
                g.mod_data_location.as_str(),
                entry.mod_relative_path.as_str(),
            );
            let job = DownloadJob {
                source_url: entry.download_url.clone(),
                destination_path: destination,
            };
            let ghost job_v = job@;
            let ghost old_jobs = jobs.deep_view();
            jobs.push(job);
            proof {
                assert(game_jobs(gv).len() == gv.mod_download_entries.len());
                assert(job_v == game_jobs(gv)[k as int]);
                assert(jobs.deep_view() =~= old_jobs.push(job_v));
                assert(game_jobs(gv).take(k + 1) =~= game_jobs(gv).take(k as int).push(
                    game_jobs(gv)[k as int],
                ));
                assert(jobs.deep_view() =~= jobs_before + game_jobs(gv).take(k + 1));
            }
            k = k + 1;
        }
        proof {
            assert(game_jobs(gv).take(game_jobs(gv).len() as int) =~= game_jobs(gv));
            assert(games.deep_view().take(i + 1).drop_last() =~= games.deep_view().take(i as int));
            assert(games.deep_view().take(i + 1).last() == gv);
            assert(jobs.deep_view() =~= planned_jobs(games.deep_view().take(i + 1)));
        }
        i = i + 1;
    }
    proof {
        assert(games.deep_view().take(games.deep_view().len() as int) =~= games.deep_view());
    }
    jobs
}

} // verus!
